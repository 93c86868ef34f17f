//! The action checklist the operator drives from the keyboard.

use vstd::prelude::*;

use crate::numfmt::string_push;

verus! {

/// The rendering of one checklist line: a checkbox and the action's name.
pub open spec fn list_format_chars(name: Seq<char>, is_selected: bool) -> Seq<char> {
    seq!['['] + (if is_selected {
        seq!['X']
    } else {
        seq![' ']
    }) + seq![']', ' '] + name
}

/// One checklist line as it is drawn.
pub fn list_format(name: &str, is_selected: bool) -> (r: String)
    ensures
        r@ == list_format_chars(name@, is_selected),
{
    let mut s = String::new();
    string_push(&mut s, '[');
    if is_selected {
        string_push(&mut s, 'X');
    } else {
        string_push(&mut s, ' ');
    }
    string_push(&mut s, ']');
    string_push(&mut s, ' ');
    s.append(name);
    assert(s@ =~= list_format_chars(name@, is_selected));
    s
}

/// The checklist of actions the operator picks from: a cursor over a
/// fixed set of names, each selected or not, with its drawn lines kept in
/// step with the selection.
pub struct ActionSelectionList {
    pub action_names: Vec<&'static str>,
    pub selected: Vec<bool>,
    pub list_strings: Vec<String>,
    pub index: usize,
}

impl ActionSelectionList {
    /// The lines always mirror the names and the selection, and the
    /// cursor always rests on an entry.
    pub open spec fn wf(self) -> bool {
        &&& self.selected@.len() == self.action_names@.len()
        &&& self.list_strings@.len() == self.action_names@.len()
        &&& self.index < self.action_names@.len()
        &&& forall|i: int|
            0 <= i < self.action_names@.len() ==> (#[trigger] self.list_strings@[i])@
                == list_format_chars(self.action_names@[i]@, self.selected@[i])
    }

    /// Builds the checklist with the cursor on the first entry.
    pub fn new(action_names: &[&'static str], selected: &[bool]) -> (r: ActionSelectionList)
        requires
            action_names@.len() == selected@.len(),
            action_names@.len() >= 1,
        ensures
            r.wf(),
            r.action_names@ == action_names@,
            r.selected@ == selected@,
            r.index == 0,
    {
        let n = action_names.len();
        let mut names: Vec<&'static str> = Vec::new();
        let mut picks: Vec<bool> = Vec::new();
        let mut list_strings: Vec<String> = Vec::new();
        let mut i: usize = 0;
        while i < n
            invariant
                n == action_names@.len(),
                n == selected@.len(),
                i <= n,
                names@ == action_names@.take(i as int),
                picks@ == selected@.take(i as int),
                list_strings@.len() == i,
                forall|j: int|
                    0 <= j < i ==> (#[trigger] list_strings@[j])@ == list_format_chars(
                        action_names@[j]@,
                        selected@[j],
                    ),
            decreases n - i,
        {
            names.push(action_names[i]);
            picks.push(selected[i]);
            let line = list_format(action_names[i], selected[i]);
            list_strings.push(line);
            proof {
                assert(names@ =~= action_names@.take(i + 1));
                assert(picks@ =~= selected@.take(i + 1));
            }
            i = i + 1;
        }
        proof {
            assert(action_names@.take(n as int) =~= action_names@);
            assert(selected@.take(n as int) =~= selected@);
        }
        ActionSelectionList { action_names: names, selected: picks, list_strings, index: 0 }
    }

    /// Toggles the entry under the cursor and redraws its line.
    pub fn select(&mut self)
        requires
            old(self).wf(),
        ensures
            final(self).wf(),
            final(self).action_names@ == old(self).action_names@,
            final(self).index == old(self).index,
            final(self).selected@ == old(self).selected@.update(
                old(self).index as int,
                !old(self).selected@[old(self).index as int],
            ),
            final(self).list_strings@.len() == old(self).list_strings@.len(),
            forall|i: int|
                0 <= i < old(self).list_strings@.len() && i != old(self).index ==> #[trigger] (
                final(self).list_strings@[i]) == old(self).list_strings@[i],
    {
        let i = self.index;
        let was = self.selected[i];
        self.selected.set(i, !was);
        let line = list_format(self.action_names[i], !was);
        self.list_strings.set(i, line);
    }

    /// Moves the cursor one entry up, stopping at the first.
    pub fn previous(&mut self)
        requires
            old(self).wf(),
        ensures
            final(self).wf(),
            final(self).action_names@ == old(self).action_names@,
            final(self).selected@ == old(self).selected@,
            final(self).list_strings@ == old(self).list_strings@,
            final(self).index == (if old(self).index > 0 {
                old(self).index - 1
            } else {
                0int
            }),
    {
        if self.index > 0 {
            self.index = self.index - 1;
        }
    }

    /// Moves the cursor one entry down, stopping at the last.
    pub fn next(&mut self)
        requires
            old(self).wf(),
        ensures
            final(self).wf(),
            final(self).action_names@ == old(self).action_names@,
            final(self).selected@ == old(self).selected@,
            final(self).list_strings@ == old(self).list_strings@,
            final(self).index == (if old(self).index + 1 < old(self).action_names@.len() {
                old(self).index + 1
            } else {
                old(self).index as int
            }),
    {
        if self.index < self.action_names.len() - 1 {
            self.index = self.index + 1;
        }
    }
}

} // verus!
