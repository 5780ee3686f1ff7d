//! Previous inputs, recalled with Up/Down.
use vstd::prelude::*;

use crate::event::str_eq;

verus! {

/// `s` with every occurrence of `x` left out, order kept.
pub open spec fn without(s: Seq<Seq<char>>, x: Seq<char>) -> Seq<Seq<char>>
    decreases s.len(),
{
    if s.len() == 0 {
        s
    } else if s.last() == x {
        without(s.drop_last(), x)
    } else {
        without(s.drop_last(), x).push(s.last())
    }
}

/// The entries after pushing `e` into a history of at most `max` entries.
pub open spec fn push_spec(entries: Seq<Seq<char>>, e: Seq<char>, max: nat) -> Seq<Seq<char>> {
    if e.len() == 0 {
        entries
    } else {
        let kept = without(entries, e).push(e);
        if kept.len() > max { kept.drop_first() } else { kept }
    }
}

/// The position after moving up (towards older entries).
pub open spec fn up_position(len: nat, pos: Option<usize>) -> Option<int> {
    if len == 0 {
        None
    } else {
        match pos {
            Some(p) => if p > 0 { Some(p - 1) } else { Some(p as int) },
            None => Some(len - 1),
        }
    }
}

/// The position after moving down (towards newer entries); `None` is the blank line below the newest.
pub open spec fn down_position(len: nat, pos: Option<usize>) -> Option<int> {
    match pos {
        Some(p) => if p + 1 < len { Some(p + 1) } else { None },
        None => None,
    }
}

/// Stores previous inputs for recall with Up/Down.
pub struct InputHistory {
    entries: Vec<String>,
    position: Option<usize>,
    max_entries: usize,
}

impl InputHistory {
    /// The stored entries, oldest first.
    pub closed spec fn entries(&self) -> Seq<Seq<char>> {
        self.entries@.map_values(|e: String| e@)
    }

    /// Where Up/Down navigation stands (`None`: below the newest entry).
    pub closed spec fn position(&self) -> Option<usize> {
        self.position
    }

    /// The bound on the number of entries.
    pub closed spec fn max_entries(&self) -> nat {
        self.max_entries as nat
    }

    /// The navigation position, when set, indexes an entry.
    pub open spec fn wf(&self) -> bool {
        self.position() matches Some(p) ==> p < self.entries().len()
    }

    pub fn new(max_entries: usize) -> (r: Self)
        ensures
            r.entries() == Seq::<Seq<char>>::empty(),
            r.position() is None,
            r.max_entries() == max_entries,
            r.wf(),
    {
        let r = InputHistory { entries: Vec::new(), position: None, max_entries };
        assert(r.entries() =~= Seq::<Seq<char>>::empty());
        r
    }

    /// Record an entry: an empty entry is ignored; an equal older entry is
    /// dropped, the new one goes last, and the oldest entry falls off when
    /// there are more than `max_entries`. Navigation starts over.
    pub fn push(&mut self, entry: String)
        ensures
            final(self).entries() == push_spec(old(self).entries(), entry@, old(self).max_entries()),
            final(self).max_entries() == old(self).max_entries(),
            entry@.len() > 0 ==> final(self).position() is None,
            entry@.len() == 0 ==> final(self).position() == old(self).position(),
            old(self).wf() ==> final(self).wf(),
    {
        if entry.as_str().is_empty() {
            return;
        }
        let ghost old_entries = self.entries();
        let mut kept: Vec<String> = Vec::new();
        let mut i: usize = 0;
        while i < self.entries.len()
            invariant
                i <= self.entries@.len(),
                old_entries == self.entries@.map_values(|e: String| e@),
                kept@.map_values(|e: String| e@) == without(old_entries.take(i as int), entry@),
            decreases self.entries.len() - i,
        {
            proof {
                assert(old_entries.take(i + 1).drop_last() =~= old_entries.take(i as int));
                assert(old_entries.take(i + 1).last() == self.entries@[i as int]@);
            }
            if !str_eq(self.entries[i].as_str(), entry.as_str()) {
                let e = self.entries[i].clone();
                kept.push(e);
                assert(kept@.map_values(|e: String| e@) =~= without(old_entries.take(i + 1), entry@));
            }
            i += 1;
        }
        assert(old_entries.take(self.entries@.len() as int) =~= old_entries);
        let ghost e = entry@;
        kept.push(entry);
        assert(kept@.map_values(|e: String| e@) =~= without(old_entries, e).push(e));
        if kept.len() > self.max_entries {
            kept.remove(0);
            assert(kept@.map_values(|e: String| e@) =~= without(old_entries, e).push(e).drop_first());
        }
        self.entries = kept;
        self.position = None;
    }

    /// Move up in history (older entries). Returns the entry if available.
    pub fn up(&mut self) -> (r: Option<&str>)
        requires
            old(self).wf(),
        ensures
            final(self).entries() == old(self).entries(),
            final(self).max_entries() == old(self).max_entries(),
            match up_position(old(self).entries().len(), old(self).position()) {
                Some(p) => final(self).position() == Some(p as usize) && (r matches Some(s) && s@ == old(self).entries()[p]),
                None => final(self).position() == old(self).position() && r is None,
            },
            final(self).wf(),
    {
        if self.entries.len() == 0 {
            return None;
        }
        let pos = match self.position {
            Some(p) => if p > 0 { p - 1 } else { p },
            None => self.entries.len() - 1,
        };
        self.position = Some(pos);
        Some(self.entries[pos].as_str())
    }

    /// Move down in history (newer entries). Returns the entry or None if at bottom.
    pub fn down(&mut self) -> (r: Option<&str>)
        requires
            old(self).wf(),
        ensures
            final(self).entries() == old(self).entries(),
            final(self).max_entries() == old(self).max_entries(),
            match down_position(old(self).entries().len(), old(self).position()) {
                Some(p) => final(self).position() == Some(p as usize) && (r matches Some(s) && s@ == old(self).entries()[p]),
                None => final(self).position() is None && r is None,
            },
            final(self).wf(),
    {
        assert(self.entries().len() == self.entries@.len());
        let pos = match self.position {
            Some(p) => {
                assert(p < self.entries.len());
                p + 1
            },
            None => return None,
        };
        if pos < self.entries.len() {
            self.position = Some(pos);
            Some(self.entries[pos].as_str())
        } else {
            self.position = None;
            None
        }
    }

    pub fn reset_position(&mut self)
        ensures
            final(self).entries() == old(self).entries(),
            final(self).max_entries() == old(self).max_entries(),
            final(self).position() is None,
            final(self).wf(),
    {
        self.position = None;
    }
}

/// `without` keeps only entries different from `x`, in order.
pub proof fn lemma_without_members(s: Seq<Seq<char>>, x: Seq<char>)
    ensures
        forall|i: int| 0 <= i < without(s, x).len() ==> without(s, x)[i] != x && s.contains(without(s, x)[i]),
        without(s, x).len() <= s.len(),
    decreases s.len(),
{
    if s.len() > 0 {
        lemma_without_members(s.drop_last(), x);
        let w = without(s.drop_last(), x);
        assert forall|i: int| 0 <= i < without(s, x).len() implies without(s, x)[i] != x && s.contains(without(s, x)[i]) by {
            if i < w.len() {
                let k = choose|k: int| 0 <= k < s.drop_last().len() && s.drop_last()[k] == w[i];
                assert(s[k] == w[i]);
            } else {
                assert(s[s.len() - 1] == s.last());
            }
        }
    }
}

/// `without` of a list with no repeats has no repeats.
pub proof fn lemma_without_distinct(s: Seq<Seq<char>>, x: Seq<char>)
    requires
        forall|i: int, j: int| 0 <= i < j < s.len() ==> s[i] != s[j],
    ensures
        forall|i: int, j: int| 0 <= i < j < without(s, x).len() ==> without(s, x)[i] != without(s, x)[j],
    decreases s.len(),
{
    if s.len() > 0 {
        let d = s.drop_last();
        lemma_without_distinct(d, x);
        lemma_without_members(d, x);
        let w = without(d, x);
        if s.last() != x {
            assert forall|i: int, j: int| 0 <= i < j < without(s, x).len() implies without(s, x)[i] != without(s, x)[j] by {
                if j == w.len() {
                    let k = choose|k: int| 0 <= k < d.len() && d[k] == w[i];
                    assert(s[k] == d[k]);
                    assert(s[k] != s[s.len() - 1]);
                }
            }
        }
    }
}

/// Law: the history never holds the same entry twice, and never more than
/// `max_entries` entries, once it starts that way.
pub proof fn law_push_keeps_entries_distinct_and_bounded(entries: Seq<Seq<char>>, e: Seq<char>, max: nat)
    requires
        forall|i: int, j: int| 0 <= i < j < entries.len() ==> entries[i] != entries[j],
        entries.len() <= max,
    ensures
        forall|i: int, j: int| 0 <= i < j < push_spec(entries, e, max).len() ==> push_spec(entries, e, max)[i] != push_spec(entries, e, max)[j],
        push_spec(entries, e, max).len() <= max,
{
    if e.len() > 0 {
        lemma_without_distinct(entries, e);
        lemma_without_members(entries, e);
        let w = without(entries, e);
        let kept = w.push(e);
        assert forall|i: int, j: int| 0 <= i < j < kept.len() implies kept[i] != kept[j] by {
            if j == w.len() {
                assert(w[i] != e);
            }
        }
    }
}

/// Law: right after a non-empty entry is pushed, moving up recalls that entry.
pub proof fn law_up_after_push_recalls_it(entries: Seq<Seq<char>>, e: Seq<char>, max: nat)
    requires
        e.len() > 0,
        max > 0,
    ensures
        ({
            let after = push_spec(entries, e, max);
            &&& up_position(after.len(), None) == Some(after.len() - 1)
            &&& after[after.len() - 1] == e
        }),
{
    let kept = without(entries, e).push(e);
    if kept.len() > max {
        assert(kept.drop_first()[kept.len() - 2] == kept[kept.len() - 1]);
    }
}

/// Law: moving up from below the newest entry and then down again returns
/// to below the newest entry.
pub proof fn law_up_then_down_returns_to_blank(len: usize)
    requires
        len > 0,
    ensures
        ({
            let p = up_position(len as nat, None);
            &&& p == Some(len - 1)
            &&& down_position(len as nat, Some((len - 1) as usize)) is None
        }),
{
}

} // verus!
