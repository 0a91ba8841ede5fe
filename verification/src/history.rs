//! Linear undo/redo history of document states.
use vstd::prelude::*;

verus! {

/// The abstract history: states that undo returns to (most recent last) and
/// states that redo returns to (most recent last).
pub struct HistoryView<T> {
    pub past: Seq<T>,
    pub future: Seq<T>,
}

/// An undo/redo stack pair.
pub struct UndoRedo<T> {
    past: Vec<T>,
    future: Vec<T>,
}

impl<T> View for UndoRedo<T> {
    type V = HistoryView<T>;

    closed spec fn view(&self) -> HistoryView<T> {
        HistoryView { past: self.past@, future: self.future@ }
    }
}

/// History after recording a checkpoint: it becomes the latest undo target
/// and the redo branch is discarded.
pub open spec fn push_spec<T>(h: HistoryView<T>, state: T) -> HistoryView<T> {
    HistoryView { past: h.past.push(state), future: Seq::empty() }
}

/// Outcome of undoing from `current`: `None` when there is nothing to undo,
/// otherwise the new history and the state to restore.
pub open spec fn undo_spec<T>(h: HistoryView<T>, current: T) -> Option<(HistoryView<T>, T)> {
    if h.past.len() == 0 {
        None
    } else {
        Some((HistoryView { past: h.past.drop_last(), future: h.future.push(current) }, h.past.last()))
    }
}

/// Outcome of redoing from `current`: `None` when there is nothing to redo,
/// otherwise the new history and the state to restore.
pub open spec fn redo_spec<T>(h: HistoryView<T>, current: T) -> Option<(HistoryView<T>, T)> {
    if h.future.len() == 0 {
        None
    } else {
        Some((HistoryView { past: h.past.push(current), future: h.future.drop_last() }, h.future.last()))
    }
}

impl<T> Default for UndoRedo<T> {
    fn default() -> (r: Self)
        ensures
            r@.past.len() == 0,
            r@.future.len() == 0,
    {
        UndoRedo { past: Vec::new(), future: Vec::new() }
    }
}

impl<T> UndoRedo<T> {
    /// An empty history.
    pub fn new() -> (r: Self)
        ensures
            r@.past.len() == 0,
            r@.future.len() == 0,
    {
        UndoRedo { past: Vec::new(), future: Vec::new() }
    }

    /// Whether there is a state to undo to.
    pub fn can_undo(&self) -> (r: bool)
        ensures
            r == (self@.past.len() > 0),
    {
        !self.past.is_empty()
    }

    /// Whether there is a state to redo to.
    pub fn can_redo(&self) -> (r: bool)
        ensures
            r == (self@.future.len() > 0),
    {
        !self.future.is_empty()
    }

    /// Records a checkpoint and discards the redo branch.
    pub fn push(&mut self, state: T)
        ensures
            final(self)@ == push_spec(old(self)@, state),
    {
        self.past.push(state);
        self.future.clear();
    }

    /// Steps back: returns the latest checkpoint and keeps `current` for redo.
    /// With nothing to undo the history is unchanged and `current` is dropped.
    pub fn undo(&mut self, current: T) -> (r: Option<T>)
        ensures
            match undo_spec(old(self)@, current) {
                None => r is None && final(self)@ == old(self)@,
                Some((h, s)) => r == Some(s) && final(self)@ == h,
            },
    {
        let previous = match self.past.pop() {
            Some(p) => p,
            None => return None,
        };
        self.future.push(current);
        Some(previous)
    }

    /// Steps forward: returns the latest undone state and keeps `current` for undo.
    /// With nothing to redo the history is unchanged and `current` is dropped.
    pub fn redo(&mut self, current: T) -> (r: Option<T>)
        ensures
            match redo_spec(old(self)@, current) {
                None => r is None && final(self)@ == old(self)@,
                Some((h, s)) => r == Some(s) && final(self)@ == h,
            },
    {
        let next = match self.future.pop() {
            Some(n) => n,
            None => return None,
        };
        self.past.push(current);
        Some(next)
    }
}

/// Redoing right after an undo restores both the history and the state that
/// was current before the undo.
pub proof fn lemma_redo_undoes_undo<T>(h: HistoryView<T>, current: T)
    requires
        h.past.len() > 0,
    ensures
        ({
            let (h1, restored) = undo_spec(h, current).unwrap();
            redo_spec(h1, restored) == Some((h, current))
        }),
{
    let (h1, restored) = undo_spec(h, current).unwrap();
    assert(h1.past.push(restored) =~= h.past);
    assert(h1.future.drop_last() =~= h.future);
}

/// Undoing right after a redo restores both the history and the state that
/// was current before the redo.
pub proof fn lemma_undo_undoes_redo<T>(h: HistoryView<T>, current: T)
    requires
        h.future.len() > 0,
    ensures
        ({
            let (h1, restored) = redo_spec(h, current).unwrap();
            undo_spec(h1, restored) == Some((h, current))
        }),
{
    let (h1, restored) = redo_spec(h, current).unwrap();
    assert(h1.past.drop_last() =~= h.past);
    assert(h1.future.push(restored) =~= h.future);
}

/// Undo returns the most recently pushed checkpoint.
pub proof fn lemma_undo_returns_last_push<T>(h: HistoryView<T>, state: T, current: T)
    ensures
        ({
            let (h1, restored) = undo_spec(push_spec(h, state), current).unwrap();
            restored == state && h1.past == h.past && h1.future == seq![current]
        }),
{
    let (h1, restored) = undo_spec(push_spec(h, state), current).unwrap();
    assert(h1.past =~= h.past);
    assert(h1.future =~= seq![current]);
}

/// After a push there is nothing to redo.
pub proof fn lemma_push_clears_redo<T>(h: HistoryView<T>, state: T, current: T)
    ensures
        redo_spec(push_spec(h, state), current) is None,
{
}

} // verus!
