//! A plain list of files with a cursor.

use crate::nav::{last_index, min_nat, sat_sub};
use vstd::prelude::*;

verus! {

pub struct FilesTab {
    pub files: Vec<String>,
    pub selected: usize,
    pub scroll: usize,
}

impl FilesTab {
    pub fn new() -> (r: Self)
        ensures
            r.files@.len() == 0,
            r.selected == 0,
            r.scroll == 0,
    {
        FilesTab { files: Vec::new(), selected: 0, scroll: 0 }
    }

    /// Replaces the list with a freshly read one, or empties it where
    /// reading failed, and goes back to the top.
    pub fn refresh(&mut self, files: Option<Vec<String>>)
        ensures
            final(self).files@ == match files {
                Some(f) => f@,
                None => Seq::<String>::empty(),
            },
            final(self).selected == 0,
            final(self).scroll == 0,
    {
        if let Some(files) = files {
            self.files = files;
        } else {
            self.files.clear();
        }
        self.selected = 0;
        self.scroll = 0;
    }

    /// One file down, stopping at the last one.
    pub fn move_down(&mut self)
        requires
            old(self).selected < usize::MAX,
        ensures
            *final(self) == (FilesTab {
                selected: min_nat((old(self).selected + 1) as nat, last_index(old(self).files@.len())) as usize,
                ..*old(self)
            }),
    {
        let max = self.files.len().saturating_sub(1);
        self.selected = if self.selected + 1 < max { self.selected + 1 } else { max };
    }

    /// One file up, stopping at the first one.
    pub fn move_up(&mut self)
        ensures
            *final(self) == (FilesTab { selected: sat_sub(old(self).selected as nat, 1) as usize, ..*old(self) }),
    {
        self.selected = self.selected.saturating_sub(1);
    }

    /// The selected file.
    pub fn current_file(&self) -> (r: Option<String>)
        ensures
            r is Some <==> self.selected < self.files@.len(),
            r matches Some(f) ==> f@ == self.files@[self.selected as int]@,
    {
        if self.selected < self.files.len() {
            Some(self.files[self.selected].clone())
        } else {
            None
        }
    }
}

} // verus!
