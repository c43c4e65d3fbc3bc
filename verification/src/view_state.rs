//! What the screen shows beyond the state of the widgets: for which inputs
//! an error message takes the place of the content.

use vstd::prelude::*;

verus! {

/// How the error of an input is shown.
#[derive(Debug, Clone, Copy, PartialEq, Eq, Structural)]
pub enum ErrorDisplay {
    /// The message takes the place of the content of the input.
    InlineMessage,
}

/// The map that a list of entries stands for; a later entry replaces an
/// earlier one for the same input.
pub open spec fn entries_map(entries: Seq<(String, ErrorDisplay)>) -> Map<Seq<char>, ErrorDisplay>
    decreases entries.len(),
{
    if entries.len() == 0 {
        Map::empty()
    } else {
        entries_map(entries.drop_last()).insert(entries.last().0@, entries.last().1)
    }
}

/// The error displays of the inputs of a screen, by the identity of the
/// input.
#[derive(Debug)]
pub struct ViewState {
    entries: Vec<(String, ErrorDisplay)>,
}

impl View for ViewState {
    type V = Map<Seq<char>, ErrorDisplay>;

    closed spec fn view(&self) -> Map<Seq<char>, ErrorDisplay> {
        entries_map(self.entries@)
    }
}

impl ViewState {
    /// No input shows an error.
    pub fn new() -> (r: Self)
        ensures
            r@ == Map::<Seq<char>, ErrorDisplay>::empty(),
    {
        ViewState { entries: Vec::new() }
    }

    /// Drops the entries of an input.
    fn forget(&mut self, id: &str)
        ensures
            final(self)@ == old(self)@.remove(id@),
            forall|i: int|
                0 <= i < final(self).entries@.len() ==> (#[trigger] final(self).entries@[i]).0@
                    != id@,
    {
        let mut kept: Vec<(String, ErrorDisplay)> = Vec::new();
        let mut i: usize = 0;
        assert(self.entries@.take(0) =~= Seq::<(String, ErrorDisplay)>::empty());
        assert(entries_map(kept@) =~= entries_map(self.entries@.take(0)).remove(id@));
        while i < self.entries.len()
            invariant
                i <= self.entries.len(),
                entries_map(kept@) == entries_map(self.entries@.take(i as int)).remove(id@),
                forall|j: int| 0 <= j < kept@.len() ==> (#[trigger] kept@[j]).0@ != id@,
            decreases self.entries.len() - i,
        {
            let ghost before = kept@;
            proof {
                assert(self.entries@.take(i + 1).drop_last() =~= self.entries@.take(i as int));
                assert(self.entries@.take(i + 1).last() == self.entries@[i as int]);
            }
            if !crate::view_state::same_text(self.entries[i].0.as_str(), id) {
                let entry = (self.entries[i].0.clone(), self.entries[i].1);
                kept.push(entry);
                proof {
                    assert(kept@.drop_last() =~= before);
                    assert(entries_map(kept@) =~= entries_map(
                        self.entries@.take(i + 1),
                    ).remove(id@));
                }
            } else {
                proof {
                    assert(entries_map(kept@) =~= entries_map(
                        self.entries@.take(i + 1),
                    ).remove(id@));
                }
            }
            i += 1;
        }
        assert(self.entries@.take(i as int) =~= self.entries@);
        self.entries = kept;
    }

    /// Notes how the error of an input is shown.
    pub fn set_error_display(&mut self, id: String, display: ErrorDisplay)
        ensures
            final(self)@ == old(self)@.insert(id@, display),
    {
        self.forget(id.as_str());
        let ghost before = self.entries@;
        self.entries.push((id, display));
        proof {
            assert(self.entries@.drop_last() =~= before);
            assert(self@ =~= old(self)@.insert(id@, display));
        }
    }

    /// The error of an input is no longer shown.
    pub fn clear_error_display(&mut self, id: &str)
        ensures
            final(self)@ == old(self)@.remove(id@),
    {
        self.forget(id);
    }

    /// How the error of an input is shown, where it is shown.
    pub fn error_display(&self, id: &str) -> (r: Option<ErrorDisplay>)
        ensures
            r == if self@.dom().contains(id@) {
                Some(self@[id@])
            } else {
                None
            },
    {
        let mut i: usize = self.entries.len();
        assert(self.entries@.take(i as int) =~= self.entries@);
        while i > 0
            invariant
                i <= self.entries.len(),
                self@.dom().contains(id@) == entries_map(self.entries@.take(i as int)).dom().contains(
                    id@,
                ),
                self@.dom().contains(id@) ==> self@[id@] == entries_map(
                    self.entries@.take(i as int),
                )[id@],
            decreases i,
        {
            proof {
                assert(self.entries@.take(i as int).drop_last() =~= self.entries@.take(i - 1));
                assert(self.entries@.take(i as int).last() == self.entries@[i - 1]);
            }
            if same_text(self.entries[i - 1].0.as_str(), id) {
                return Some(self.entries[i - 1].1);
            }
            i -= 1;
        }
        None
    }

    /// Whether the error message of an input takes the place of its
    /// content.
    pub fn shows_inline(&self, id: &str) -> (r: bool)
        ensures
            r == (self@.dom().contains(id@) && self@[id@] == ErrorDisplay::InlineMessage),
    {
        match self.error_display(id) {
            Some(ErrorDisplay::InlineMessage) => true,
            None => false,
        }
    }
}

impl Default for ViewState {
    fn default() -> (r: Self)
        ensures
            r@ == Map::<Seq<char>, ErrorDisplay>::empty(),
    {
        ViewState::new()
    }
}

/// Whether two texts are the same.
pub fn same_text(a: &str, b: &str) -> (r: bool)
    ensures
        r == (a@ == b@),
{
    let x = crate::chars::to_chars(a);
    let y = crate::chars::to_chars(b);
    if x.len() != y.len() {
        return false;
    }
    let mut i: usize = 0;
    while i < x.len()
        invariant
            i <= x.len(),
            x.len() == y.len(),
            x@ == a@,
            y@ == b@,
            forall|j: int| 0 <= j < i ==> x@[j] == y@[j],
        decreases x.len() - i,
    {
        if x[i] != y[i] {
            return false;
        }
        i += 1;
    }
    assert(a@ =~= b@);
    true
}

} // verus!
