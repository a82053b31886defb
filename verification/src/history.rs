//! Generic input history for the command and search lines: a list of past
//! entries plus a browse position, with the in-progress input saved while
//! browsing and restored on the way back.

use vstd::prelude::*;
use vstd::string::*;

verus! {

/// Input history that handles navigation through previous entries.
pub struct InputHistory {
    /// History entries (oldest first).
    entries: Vec<String>,
    /// Current position in history (nothing = new entry, not browsing).
    index: Option<usize>,
    /// Saved input while browsing history (restored when exiting).
    saved: String,
}

impl InputHistory {
    /// The entries, oldest first.
    pub closed spec fn entries_view(self) -> Seq<Seq<char>> {
        self.entries@.map_values(|s: String| s@)
    }

    /// The current browse position, if browsing.
    pub closed spec fn browse_index(self) -> Option<int> {
        match self.index {
            Some(i) => Some(i as int),
            None => None,
        }
    }

    /// The input saved while browsing.
    pub closed spec fn saved_view(self) -> Seq<char> {
        self.saved@
    }

    /// A browse position always points at an entry.
    pub closed spec fn wf(self) -> bool {
        self.index matches Some(i) ==> (i as int) < self.entries@.len()
    }

    /// Create a new empty history.
    pub fn new() -> (r: Self)
        ensures
            r.wf(),
            r.entries_view().len() == 0,
            r.browse_index() is None,
            r.saved_view().len() == 0,
    {
        InputHistory { entries: Vec::new(), index: None, saved: String::new() }
    }

    /// Add an entry (consecutive duplicates are kept once) and leave
    /// browsing mode.
    pub fn push(&mut self, entry: String)
        ensures
            final(self).wf(),
            final(self).browse_index() is None,
            final(self).saved_view() == old(self).saved_view(),
            (if old(self).entries_view().len() == 0 || old(self).entries_view().last() != entry@ {
                final(self).entries_view() == old(self).entries_view().push(entry@)
            } else {
                final(self).entries_view() == old(self).entries_view()
            }),
    {
        let n = self.entries.len();
        let duplicate = n > 0 && self.entries[n - 1] == entry;
        if !duplicate {
            self.entries.push(entry);
            proof {
                assert(self.entries@.map_values(|s: String| s@) =~= old(
                    self,
                ).entries@.map_values(|s: String| s@).push(entry@));
            }
        }
        self.index = None;
    }

    /// Navigate to the previous (older) entry; returns the entry to
    /// display.  Entering browse mode saves the current input.
    pub fn prev(&mut self, current_input: &str) -> (r: Option<String>)
        requires
            old(self).wf(),
        ensures
            final(self).wf(),
            final(self).entries_view() == old(self).entries_view(),
            old(self).entries_view().len() == 0 ==> r is None && *final(self) == *old(self),
            old(self).entries_view().len() > 0 ==> {
                let n = old(self).entries_view().len();
                match old(self).browse_index() {
                    None => {
                        &&& final(self).saved_view() == current_input@
                        &&& final(self).browse_index() == Some(n - 1)
                        &&& r matches Some(s) && s@ == old(self).entries_view().last()
                    },
                    Some(i) => if i == 0 {
                        &&& *final(self) == *old(self)
                        &&& r matches Some(s) && s@ == old(self).entries_view()[0]
                    } else {
                        &&& final(self).saved_view() == old(self).saved_view()
                        &&& final(self).browse_index() == Some(i - 1)
                        &&& r matches Some(s) && s@ == old(self).entries_view()[i - 1]
                    },
                }
            },
    {
        if self.entries.len() == 0 {
            return None;
        }
        match self.index {
            None => {
                self.saved = String::from_str(current_input);
                let last = self.entries.len() - 1;
                self.index = Some(last);
                Some(self.entries[last].clone())
            },
            Some(i) => {
                if i == 0 {
                    Some(self.entries[0].clone())
                } else {
                    self.index = Some(i - 1);
                    Some(self.entries[i - 1].clone())
                }
            },
        }
    }

    /// Navigate to the next (newer) entry; at the end of the history the
    /// saved input is restored and browsing ends.
    pub fn next(&mut self) -> (r: Option<String>)
        requires
            old(self).wf(),
        ensures
            final(self).wf(),
            final(self).entries_view() == old(self).entries_view(),
            final(self).saved_view() == old(self).saved_view(),
            (match old(self).browse_index() {
                None => r is None && *final(self) == *old(self),
                Some(i) => if i + 1 >= old(self).entries_view().len() {
                    &&& final(self).browse_index() is None
                    &&& r matches Some(s) && s@ == old(self).saved_view()
                } else {
                    &&& final(self).browse_index() == Some(i + 1)
                    &&& r matches Some(s) && s@ == old(self).entries_view()[i + 1]
                },
            }),
    {
        match self.index {
            None => None,
            Some(i) => {
                let n = self.entries.len();
                if i >= n - 1 {
                    self.index = None;
                    Some(self.saved.clone())
                } else {
                    self.index = Some(i + 1);
                    Some(self.entries[i + 1].clone())
                }
            },
        }
    }

    /// Reset the navigation state (called when entering the mode).
    pub fn reset_navigation(&mut self)
        ensures
            final(self).wf(),
            final(self).entries_view() == old(self).entries_view(),
            final(self).browse_index() is None,
            final(self).saved_view().len() == 0,
    {
        self.index = None;
        self.saved = String::new();
    }

    /// Is the history currently being browsed?
    pub fn is_browsing(&self) -> (r: bool)
        ensures
            r == (self.browse_index() is Some),
    {
        self.index.is_some()
    }
}

} // verus!
