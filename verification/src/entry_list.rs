//! The list of a directory's entries, with one of them selected.

use vstd::prelude::*;
use vstd::arithmetic::div_mod::{lemma_mod_self_0, lemma_small_mod};
use std::path::PathBuf;

verus! {

/// The declaration of `std::path::PathBuf` for the verifier.
#[verifier::external_type_specification]
#[verifier::external_body]
pub struct ExPathBuf(PathBuf);

/// One listed file.
pub struct Entry {
    /// Where the file is.
    pub path: PathBuf,
    /// The name it is listed under.
    pub name: String,
}

/// A key of the keyboard, as far as the list tells keys apart.
#[derive(Debug, Clone, Copy, PartialEq, Eq, Structural)]
pub enum Key {
    /// A character key.
    Char(char),
    /// The up arrow.
    Up,
    /// The down arrow.
    Down,
    /// The enter key.
    Enter,
    /// Any other key.
    Other,
}

/// What the interface does in answer to a key.
#[derive(Debug, Clone, Copy, PartialEq, Eq, Structural)]
pub enum Reaction {
    /// Goes on showing the list.
    Stay,
    /// Ends the session.
    Quit,
    /// Opens the selected entry in the editor.
    Edit,
}

/// The index before `selected` in a list of `len` entries, going round from
/// the first to the last.
pub open spec fn prev_index(selected: int, len: int) -> int {
    if selected == 0 {
        len - 1
    } else {
        selected - 1
    }
}

/// The index after `selected` in a list of `len` entries, going round from
/// the last to the first.
pub open spec fn next_index(selected: int, len: int) -> int {
    if selected + 1 == len {
        0
    } else {
        selected + 1
    }
}

/// Whether a key acts on the selected entry, so that there must be one.
pub open spec fn needs_entry(key: Key, pressed: bool) -> bool {
    pressed && (key == Key::Up || key == Key::Down || key == Key::Enter)
}

/// The selection after a key, in a list of `len` entries.
pub open spec fn selection_after(selected: int, len: int, key: Key, pressed: bool) -> int {
    if pressed && key == Key::Up {
        prev_index(selected, len)
    } else if pressed && key == Key::Down {
        next_index(selected, len)
    } else {
        selected
    }
}

/// The reaction to a key: `q` quits, enter edits, and a key that is not
/// pressed but held or let go does nothing.
pub open spec fn reaction_to(key: Key, pressed: bool) -> Reaction {
    if pressed && key == Key::Char('q') {
        Reaction::Quit
    } else if pressed && key == Key::Enter {
        Reaction::Edit
    } else {
        Reaction::Stay
    }
}

/// The entries of a directory and the selection among them.
pub struct EntryList {
    entries: Vec<Entry>,
    selected: usize,
}

impl EntryList {
    /// The selection is an entry of the list, or `0` in an empty list.
    #[verifier::type_invariant]
    spec fn selection_in_range(&self) -> bool {
        self.selected < self.entries@.len() || self.selected == 0
    }

    /// The entries.
    pub closed spec fn entries(&self) -> Seq<Entry> {
        self.entries@
    }

    /// The index of the selected entry.
    pub closed spec fn selection(&self) -> int {
        self.selected as int
    }

    /// A list of the given entries with the first one selected.
    pub fn new(entries: Vec<Entry>) -> (list: EntryList)
        ensures
            list.entries() == entries@,
            list.selection() == 0,
    {
        EntryList { entries, selected: 0 }
    }

    /// The number of entries.
    pub fn len(&self) -> (len: usize)
        ensures
            len == self.entries().len(),
    {
        self.entries.len()
    }

    /// The state of the list on screen: the index of the highlighted item,
    /// which is that of the selected entry, or `0` in an empty list.
    pub fn state(&self) -> (state: Option<usize>)
        ensures
            state matches Some(selected) && selected == self.selection(),
            self.entries().len() > 0 ==> state.unwrap() < self.entries().len(),
            self.entries().len() == 0 ==> state == Some(0usize),
    {
        proof {
            use_type_invariant(self);
        }
        Some(self.selected)
    }

    /// The items of the list on screen: the names of the entries, in order.
    pub fn list(&self) -> (names: Vec<String>)
        ensures
            names@.len() == self.entries().len(),
            forall|i: int| 0 <= i < names@.len() ==> names@[i]@ == self.entries()[i].name@,
    {
        let mut names: Vec<String> = Vec::new();
        let mut i: usize = 0;
        while i < self.entries.len()
            invariant
                i <= self.entries@.len(),
                names@.len() == i,
                forall|j: int| 0 <= j < i ==> names@[j]@ == self.entries@[j].name@,
            decreases self.entries@.len() - i,
        {
            names.push(self.entries[i].name.clone());
            i += 1;
        }
        names
    }

    /// Selects the entry before the selected one, or the last one if the
    /// first is selected.
    pub fn select_prev(&mut self)
        requires
            old(self).entries().len() > 0,
        ensures
            final(self).entries() == old(self).entries(),
            final(self).selection() == prev_index(
                old(self).selection(),
                old(self).entries().len() as int,
            ),
    {
        proof {
            use_type_invariant(&*self);
        }
        let selected = if self.selected == 0 {
            self.entries.len() - 1
        } else {
            self.selected - 1
        };
        self.selected = selected;
    }

    /// Selects the entry after the selected one, or the first one if the
    /// last is selected.
    pub fn select_next(&mut self)
        requires
            old(self).entries().len() > 0,
        ensures
            final(self).entries() == old(self).entries(),
            final(self).selection() == next_index(
                old(self).selection(),
                old(self).entries().len() as int,
            ),
    {
        proof {
            use_type_invariant(&*self);
        }
        let len = self.entries.len();
        proof {
            if self.selected + 1 < len {
                lemma_small_mod((self.selected + 1) as nat, len as nat);
            } else {
                lemma_mod_self_0(len as int);
            }
        }
        let selected = (self.selected + 1) % len;
        self.selected = selected;
    }

    /// The selected entry.
    pub fn selected_entry(&self) -> (entry: &Entry)
        requires
            self.entries().len() > 0,
        ensures
            *entry == self.entries()[self.selection()],
    {
        proof {
            use_type_invariant(self);
        }
        &self.entries[self.selected]
    }

    /// Whether `handle_key` can be called with this key: a key that acts on
    /// the selected entry needs a list that is not empty.
    pub fn can_handle(&self, key: Key, pressed: bool) -> (can: bool)
        ensures
            can == (needs_entry(key, pressed) ==> self.entries().len() > 0),
    {
        if !pressed || self.entries.len() > 0 {
            return true;
        }
        match key {
            Key::Up | Key::Down | Key::Enter => false,
            _ => true,
        }
    }

    /// Answers a key: the arrows move the selection, enter asks for the
    /// selected entry to be edited, `q` quits. Only a key press counts.
    pub fn handle_key(&mut self, key: Key, pressed: bool) -> (reaction: Reaction)
        requires
            needs_entry(key, pressed) ==> old(self).entries().len() > 0,
        ensures
            reaction == reaction_to(key, pressed),
            final(self).entries() == old(self).entries(),
            final(self).selection() == selection_after(
                old(self).selection(),
                old(self).entries().len() as int,
                key,
                pressed,
            ),
    {
        if !pressed {
            return Reaction::Stay;
        }
        match key {
            Key::Char(c) => if c == 'q' {
                Reaction::Quit
            } else {
                Reaction::Stay
            },
            Key::Up => {
                self.select_prev();
                Reaction::Stay
            },
            Key::Down => {
                self.select_next();
                Reaction::Stay
            },
            Key::Enter => Reaction::Edit,
            Key::Other => Reaction::Stay,
        }
    }
}

/// Going to the next entry and back, or back and on, returns to the same
/// entry, and the selection stays within the list.
pub proof fn lemma_prev_next(selected: int, len: int)
    requires
        0 <= selected < len,
    ensures
        0 <= prev_index(selected, len) < len,
        0 <= next_index(selected, len) < len,
        prev_index(next_index(selected, len), len) == selected,
        next_index(prev_index(selected, len), len) == selected,
{
}

} // verus!
