//! Autocomplete popup state for filter input.
use vstd::prelude::*;

verus! {

/// Index after moving the selection up, wrapping to the last suggestion.
pub open spec fn wrap_up(idx: int, len: int) -> int {
    if idx == 0 { len - 1 } else { idx - 1 }
}

/// Index after moving the selection down, wrapping to the first suggestion.
pub open spec fn wrap_down(idx: int, len: int) -> int {
    (idx + 1) % len
}

/// Autocomplete popup state for filter input.
pub struct AutocompleteState {
    pub suggestions: Vec<String>,
    pub selected_index: usize,
    pub active: bool,
}

impl AutocompleteState {
    pub fn new() -> (r: Self)
        ensures
            r.suggestions@.len() == 0,
            r.selected_index == 0,
            !r.active,
    {
        AutocompleteState { suggestions: Vec::new(), selected_index: 0, active: false }
    }

    pub fn clear(&mut self)
        ensures
            final(self).suggestions@.len() == 0,
            final(self).selected_index == 0,
            !final(self).active,
    {
        self.suggestions.clear();
        self.selected_index = 0;
        self.active = false;
    }

    /// Show these suggestions (an empty list closes the popup). The
    /// selection is kept when it still points at a suggestion, else reset to
    /// the first one.
    pub fn set_suggestions(&mut self, suggestions: Vec<String>)
        ensures
            suggestions@.len() == 0 ==> {
                &&& final(self).suggestions@.len() == 0
                &&& final(self).selected_index == 0
                &&& !final(self).active
            },
            suggestions@.len() > 0 ==> {
                &&& final(self).suggestions@ == suggestions@
                &&& final(self).selected_index == if old(self).selected_index < suggestions@.len() {
                    old(self).selected_index
                } else {
                    0
                }
                &&& final(self).active
            },
    {
        if suggestions.len() == 0 {
            self.clear();
        } else {
            self.suggestions = suggestions;
            if self.selected_index >= self.suggestions.len() {
                self.selected_index = 0;
            }
            self.active = true;
        }
    }

    pub fn move_up(&mut self)
        ensures
            final(self).suggestions@ == old(self).suggestions@,
            final(self).active == old(self).active,
            final(self).selected_index == if old(self).suggestions@.len() == 0 {
                old(self).selected_index as int
            } else {
                wrap_up(old(self).selected_index as int, old(self).suggestions@.len() as int)
            },
    {
        if self.suggestions.len() != 0 {
            if self.selected_index == 0 {
                self.selected_index = self.suggestions.len() - 1;
            } else {
                self.selected_index = self.selected_index - 1;
            }
        }
    }

    pub fn move_down(&mut self)
        requires
            old(self).suggestions@.len() == 0 || old(self).selected_index < usize::MAX,
        ensures
            final(self).suggestions@ == old(self).suggestions@,
            final(self).active == old(self).active,
            final(self).selected_index == if old(self).suggestions@.len() == 0 {
                old(self).selected_index as int
            } else {
                wrap_down(old(self).selected_index as int, old(self).suggestions@.len() as int)
            },
    {
        if self.suggestions.len() != 0 {
            self.selected_index = (self.selected_index + 1) % self.suggestions.len();
        }
    }

    /// The highlighted suggestion while the popup is open.
    pub fn selected(&self) -> (r: Option<&str>)
        ensures
            (self.active && self.suggestions@.len() > 0) ==> (r matches Some(s) && s@ == self.suggestions@[
                if self.selected_index < self.suggestions@.len() {
                    self.selected_index as int
                } else {
                    self.suggestions@.len() - 1
                }
            ]@),
            !(self.active && self.suggestions@.len() > 0) ==> r is None,
    {
        if self.active && self.suggestions.len() != 0 {
            let last = self.suggestions.len() - 1;
            let idx = if self.selected_index < last { self.selected_index } else { last };
            Some(self.suggestions[idx].as_str())
        } else {
            None
        }
    }
}

/// Law: within the list, moving the selection down and then up (or up and
/// then down) returns it to where it was; both moves wrap around the ends.
pub proof fn law_move_down_up_inverse(idx: int, len: int)
    requires
        0 <= idx < len,
    ensures
        wrap_up(wrap_down(idx, len), len) == idx,
        wrap_down(wrap_up(idx, len), len) == idx,
        0 <= wrap_down(idx, len) < len,
        0 <= wrap_up(idx, len) < len,
{
    if idx + 1 < len {
        vstd::arithmetic::div_mod::lemma_small_mod((idx + 1) as nat, len as nat);
    } else {
        vstd::arithmetic::div_mod::lemma_mod_self_0(len);
    }
    if idx == 0 {
        vstd::arithmetic::div_mod::lemma_mod_self_0(len);
    } else {
        vstd::arithmetic::div_mod::lemma_small_mod(idx as nat, len as nat);
    }
}

/// The selection after `k` moves down from `idx` among `len` suggestions.
pub open spec fn downs(idx: int, len: int, k: nat) -> int
    decreases k,
{
    if k == 0 { idx } else { wrap_down(downs(idx, len, (k - 1) as nat), len) }
}

/// `k` moves down land on `(idx + k) % len`.
pub proof fn lemma_downs(idx: int, len: int, k: nat)
    requires
        0 <= idx < len,
    ensures
        downs(idx, len, k) == (idx + k) % len,
    decreases k,
{
    if k == 0 {
        vstd::arithmetic::div_mod::lemma_small_mod(idx as nat, len as nat);
    } else {
        lemma_downs(idx, len, (k - 1) as nat);
        vstd::arithmetic::div_mod::lemma_add_mod_noop_right(1, idx + k - 1, len);
    }
}

/// Law: moving the selection down once per suggestion brings it back to
/// where it started.
pub proof fn law_full_cycle_down(idx: int, len: int)
    requires
        0 <= idx < len,
    ensures
        downs(idx, len, len as nat) == idx,
{
    lemma_downs(idx, len, len as nat);
    vstd::arithmetic::div_mod::lemma_add_mod_noop_right(idx, len, len);
    vstd::arithmetic::div_mod::lemma_mod_self_0(len);
    vstd::arithmetic::div_mod::lemma_small_mod(idx as nat, len as nat);
}

} // verus!
