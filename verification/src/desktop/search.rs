//! The search bar of a terminal: what is looked for, what was found, and which result is shown.

use crate::desktop::screen::{scroll_offset_for_line, TerminalSearchMatch};
use crate::text::{trim, trimmed};
use vstd::prelude::*;

verus! {

pub struct SearchState {
    pub query: String,
    pub matches: Vec<TerminalSearchMatch>,
    pub current: Option<usize>,
}

/// What becomes of a search when `found` is what its text occurs at.
pub open spec fn searched(
    before: SearchState,
    found: Seq<TerminalSearchMatch>,
    after: SearchState,
) -> bool {
    &&& after.query == before.query
    &&& if trimmed(before.query@).len() == 0 {
        after.matches@.len() == 0 && after.current is None
    } else {
        &&& after.matches@ == found
        &&& after.current == (match before.current {
            Some(index) => if index < found.len() {
                Some(index)
            } else if found.len() > 0 {
                Some(0usize)
            } else {
                None
            },
            None => if found.len() > 0 {
                Some(0usize)
            } else {
                None
            },
        })
    }
}

impl SearchState {
    /// The current result is one of the results, and their lines can be scrolled to.
    pub open spec fn well_formed(self) -> bool {
        &&& self.current matches Some(index) ==> index < self.matches@.len()
        &&& lines_fit(self.matches@)
    }

    pub fn new() -> (r: Self)
        ensures
            r.well_formed(),
            r.query@.len() == 0 && r.matches@.len() == 0 && r.current is None,
    {
        SearchState {
            query: String::new(),
            matches: Vec::new(),
            current: None,
        }
    }

    /// What to look for; `None` for nothing but white space.
    pub fn wanted(&self) -> (r: Option<String>)
        ensures
            match r {
                Some(query) => query@ == trimmed(self.query@) && query@.len() > 0,
                None => trimmed(self.query@).len() == 0,
            },
    {
        let query = trim(self.query.as_str());
        if query.is_empty() {
            None
        } else {
            Some(query.to_owned())
        }
    }

    /// Forgets the results.
    pub fn clear(&mut self)
        ensures
            final(self).well_formed(),
            final(self).matches@.len() == 0 && final(self).current is None,
            final(self).query == old(self).query,
    {
        self.matches = Vec::new();
        self.current = None;
    }

    /// Takes up what was found for what is wanted. The current result stays where it is still one.
    pub fn refresh_search(&mut self, found: Vec<TerminalSearchMatch>)
        requires
            lines_fit(found@),
        ensures
            final(self).well_formed(),
            searched(*old(self), found@, *final(self)),
    {
        if self.wanted().is_none() {
            self.clear();
            return;
        }
        self.matches = found;
        let stays = match self.current {
            Some(index) => index < self.matches.len(),
            None => false,
        };
        if !stays {
            self.current = if self.matches.len() > 0 {
                Some(0)
            } else {
                None
            };
        }
    }

    /// Goes to the next result, around the end, and says how far to scroll back for it.
    pub fn search_next(&mut self) -> (r: Option<usize>)
        requires
            old(self).well_formed(),
        ensures
            final(self).well_formed(),
            final(self).query == old(self).query,
            final(self).matches == old(self).matches,
            final(self).current == next_index(old(self).current, old(self).matches@.len()),
            r == shown_offset(old(self).matches@, final(self).current),
            old(self).matches@.len() == 0 ==> final(self).current == old(self).current && r is None,
            old(self).matches@.len() > 0 ==> {
                &&& final(self).current matches Some(index) && index as int == (match old(
                    self).current {
                    Some(before) => if before + 1 < old(self).matches@.len() {
                        before + 1
                    } else {
                        0
                    },
                    None => 0,
                })
                &&& r matches Some(offset) && is_offset_of(
                    offset,
                    old(self).matches@[final(self).current->Some_0 as int].line,
                )
            },
    {
        let total: usize = self.matches.len();
        if total == 0 {
            return None;
        }
        let next: usize = match self.current {
            Some(index) => if index + 1 == total {
                0
            } else {
                index + 1
            },
            None => 0,
        };
        self.current = Some(next);
        Some(scroll_offset_for_line(self.matches[next].line))
    }

    /// Goes to the result before, around the start, and says how far to scroll back for it.
    pub fn search_prev(&mut self) -> (r: Option<usize>)
        requires
            old(self).well_formed(),
        ensures
            final(self).well_formed(),
            final(self).query == old(self).query,
            final(self).matches == old(self).matches,
            final(self).current == previous_index(old(self).current, old(self).matches@.len()),
            r == shown_offset(old(self).matches@, final(self).current),
            old(self).matches@.len() == 0 ==> final(self).current == old(self).current && r is None,
            old(self).matches@.len() > 0 ==> {
                &&& final(self).current matches Some(index) && index as int == (match old(
                    self).current {
                    Some(before) => if before > 0 {
                        before - 1
                    } else {
                        old(self).matches@.len() - 1
                    },
                    None => old(self).matches@.len() - 1,
                })
                &&& r matches Some(offset) && is_offset_of(
                    offset,
                    old(self).matches@[final(self).current->Some_0 as int].line,
                )
            },
    {
        let total: usize = self.matches.len();
        if total == 0 {
            return None;
        }
        let previous: usize = match self.current {
            Some(index) => if index == 0 {
                total - 1
            } else {
                index - 1
            },
            None => total - 1,
        };
        self.current = Some(previous);
        Some(scroll_offset_for_line(self.matches[previous].line))
    }

    /// The number of the current result, from one on, and how many there are.
    pub fn position(&self) -> (r: (usize, usize))
        requires
            self.well_formed(),
        ensures
            r.0 == (match self.current {
                Some(index) => index + 1,
                None => 0,
            }),
            r.1 == self.matches@.len(),
    {
        let total: usize = self.matches.len();
        let current: usize = match self.current {
            Some(index) => index + 1,
            None => 0,
        };
        (current, total)
    }
}

pub open spec fn lines_fit(matches: Seq<TerminalSearchMatch>) -> bool {
    forall|i: int| 0 <= i < matches.len() ==> (#[trigger] matches[i]).line > i32::MIN
}

/// The index after another, around the end; without results there is none to go to.
pub open spec fn next_index(current: Option<usize>, total: nat) -> Option<usize> {
    if total == 0 {
        current
    } else {
        match current {
            Some(index) => if index + 1 >= total {
                Some(0)
            } else {
                Some((index + 1) as usize)
            },
            None => Some(0),
        }
    }
}

/// The index before another, around the start.
pub open spec fn previous_index(current: Option<usize>, total: nat) -> Option<usize> {
    if total == 0 {
        current
    } else {
        match current {
            Some(index) => if index == 0 {
                Some((total - 1) as usize)
            } else {
                Some((index - 1) as usize)
            },
            None => Some((total - 1) as usize),
        }
    }
}

/// How far to scroll back for a result.
pub open spec fn shown_offset(matches: Seq<TerminalSearchMatch>, current: Option<usize>) -> Option<usize> {
    if matches.len() == 0 {
        None
    } else {
        match current {
            Some(index) => Some(
                if matches[index as int].line < 0 {
                    (-matches[index as int].line) as usize
                } else {
                    0
                },
            ),
            None => None,
        }
    }
}

/// Whether a terminal is scrolled back by this much for a line: lines of the history have negative
/// numbers, and the others are in view at the end.
pub open spec fn is_offset_of(offset: usize, line: i32) -> bool {
    &&& line < 0 ==> offset + line == 0
    &&& line >= 0 ==> offset == 0
}

/// Going on makes the result behind the current one the current one, and the first one at the end
/// or where there was none; going back makes it the one before, and the last one at the start or
/// where there was none. Without results nothing changes.
pub proof fn law_steps_go_one_result_at_a_time(index: usize, total: nat)
    requires
        index < total <= usize::MAX,
    ensures
        index + 1 < total ==> next_index(Some(index), total) == Some((index + 1) as usize),
        index + 1 == total ==> next_index(Some(index), total) == Some(0usize),
        index > 0 ==> previous_index(Some(index), total) == Some((index - 1) as usize),
        index == 0 ==> previous_index(Some(index), total) == Some((total - 1) as usize),
        next_index(Some(index), total)->Some_0 == (index + 1) % total as int,
        (previous_index(Some(index), total)->Some_0 + 1) % total as int == index,
        next_index(None, total) == Some(0usize),
        previous_index(None, total) == Some((total - 1) as usize),
        next_index(None, 0) is None && previous_index(None, 0) is None,
        next_index(Some(index), 0) == Some(index) && previous_index(Some(index), 0) == Some(index),
{
    if index + 1 == total {
        vstd::arithmetic::div_mod::lemma_mod_self_0(total as int);
    } else {
        vstd::arithmetic::div_mod::lemma_small_mod((index + 1) as nat, total);
    }
    if index == 0 {
        vstd::arithmetic::div_mod::lemma_mod_self_0(total as int);
    } else {
        vstd::arithmetic::div_mod::lemma_small_mod(index as nat, total);
    }
}

/// A terminal is scrolled back to the line of the current result.
pub proof fn law_current_result_is_scrolled_to(matches: Seq<TerminalSearchMatch>, index: usize)
    requires
        index < matches.len(),
        matches[index as int].line > i32::MIN,
    ensures
        shown_offset(matches, Some(index)) matches Some(offset) && is_offset_of(
            offset,
            matches[index as int].line,
        ),
        shown_offset(matches, None) is None,
{
}

/// Going on and going back undo each other.
pub proof fn law_next_and_previous_undo_each_other(index: usize, total: nat)
    requires
        index < total <= usize::MAX,
    ensures
        previous_index(next_index(Some(index), total), total) == Some(index),
        next_index(previous_index(Some(index), total), total) == Some(index),
{
}

/// A search for white space finds nothing. Any other one takes up all that was found; the current
/// result stays while it is one, and otherwise the first result becomes it.
pub proof fn law_results_are_taken_up(
    before: SearchState,
    found: Seq<TerminalSearchMatch>,
    after: SearchState,
)
    requires
        searched(before, found, after),
    ensures
        after.query == before.query,
        trimmed(before.query@).len() == 0 ==> after.matches@.len() == 0,
        trimmed(before.query@).len() > 0 ==> after.matches@ == found,
        after.current is Some <==> after.matches@.len() > 0,
        trimmed(before.query@).len() > 0 && (before.current matches Some(index) && index
            < found.len()) ==> after.current == before.current,
        after.current != before.current && after.matches@.len() > 0 ==> after.current == Some(
            0usize,
        ),
{
}

} // verus!
