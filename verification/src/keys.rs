//! Editing and navigation helpers behind the TUI's pickers and search box:
//! a cursor counted in characters over a query string, and a list selection.
use vstd::prelude::*;

use crate::text::{chars_of, string_of};

verus! {

/// The selection of a list widget: the selected row, if any.
pub struct ListState {
    selected: Option<usize>,
}

impl ListState {
    /// The selected row.
    pub closed spec fn selection(self) -> Option<usize> {
        self.selected
    }

    /// A list with nothing selected.
    pub fn new() -> (r: ListState)
        ensures
            r.selection() is None,
    {
        ListState { selected: None }
    }

    /// The selected row.
    pub fn selected(&self) -> (r: Option<usize>)
        ensures
            r == self.selection(),
    {
        self.selected
    }

    /// Selects row `index`, or nothing.
    pub fn select(&mut self, index: Option<usize>)
        ensures
            final(self).selection() == index,
    {
        self.selected = index;
    }
}

impl Default for ListState {
    fn default() -> (r: ListState)
        ensures
            r.selection() is None,
    {
        ListState { selected: None }
    }
}

/// The row selected after moving down in a list of `len` rows: the next row,
/// held at the last one; the first row when nothing was selected.
pub open spec fn nav_down(selected: Option<usize>, len: nat) -> usize {
    match selected {
        Some(i) => if i + 1 <= len - 1 {
            (i + 1) as usize
        } else if len >= 1 {
            (len - 1) as usize
        } else {
            0
        },
        None => 0,
    }
}

/// The row selected after moving up: the previous row, held at the first.
pub open spec fn nav_up(selected: Option<usize>) -> usize {
    match selected {
        Some(i) => if i >= 1 {
            (i - 1) as usize
        } else {
            0
        },
        None => 0,
    }
}

/// Moves the selection one row down in a list of `len` rows.
pub fn picker_nav_down(state: &mut ListState, len: usize)
    ensures
        final(state).selection() == Some(nav_down(old(state).selection(), len as nat)),
{
    let i = match state.selected() {
        Some(i) => {
            let last = if len > 0 {
                len - 1
            } else {
                0
            };
            if i < last {
                i + 1
            } else {
                last
            }
        },
        None => 0,
    };
    state.select(Some(i));
}

/// Moves the selection one row up.
pub fn picker_nav_up(state: &mut ListState)
    ensures
        final(state).selection() == Some(nav_up(old(state).selection())),
{
    let i = match state.selected() {
        Some(i) => if i > 0 {
            i - 1
        } else {
            0
        },
        None => 0,
    };
    state.select(Some(i));
}

/// Moves the cursor one character left, stopping at the start.
pub fn picker_cursor_left(cursor: &mut usize)
    ensures
        *final(cursor) == if *old(cursor) > 0 {
            (*old(cursor) - 1) as usize
        } else {
            0usize
        },
{
    if *cursor > 0 {
        *cursor = *cursor - 1;
    }
}

/// Moves the cursor one character right, stopping at the end of `query`.
pub fn picker_cursor_right(cursor: &mut usize, query: &str)
    ensures
        *final(cursor) == if *old(cursor) < query@.len() {
            (*old(cursor) + 1) as usize
        } else {
            *old(cursor)
        },
{
    let n = query.unicode_len();
    if *cursor < n {
        *cursor = *cursor + 1;
    }
}

/// `query` without the character at index `k` (unchanged when there is none).
pub open spec fn remove_at(query: Seq<char>, k: int) -> Seq<char> {
    if 0 <= k < query.len() {
        query.remove(k)
    } else {
        query
    }
}

/// `query` with `c` inserted at index `k`, or at the end when `k` is past it.
pub open spec fn insert_at(query: Seq<char>, k: int, c: char) -> Seq<char> {
    if k <= query.len() {
        query.insert(k, c)
    } else {
        query.push(c)
    }
}

/// Removes the character at index `k` of `query`, if there is one.
pub fn remove_char_at(query: &mut String, k: usize)
    ensures
        final(query)@ == remove_at(old(query)@, k as int),
{
    let v = chars_of(query.as_str());
    if k < v.len() {
        let mut w = v;
        w.remove(k);
        *query = string_of(&w);
    }
}

/// Inserts `c` at character index `k` of `query` (at the end when `k` is past it).
pub fn insert_char_at(query: &mut String, k: usize, c: char)
    ensures
        final(query)@ == insert_at(old(query)@, k as int, c),
{
    let mut v = chars_of(query.as_str());
    if k <= v.len() {
        v.insert(k, c);
    } else {
        v.push(c);
    }
    *query = string_of(&v);
}

/// Deletes the character before the cursor and moves the cursor back onto it;
/// returns whether the cursor moved (nothing happens at the start).
pub fn picker_backspace(query: &mut String, cursor: &mut usize) -> (changed: bool)
    ensures
        changed == (*old(cursor) > 0),
        changed ==> *final(cursor) == *old(cursor) - 1 && final(query)@ == remove_at(
            old(query)@,
            *old(cursor) - 1,
        ),
        !changed ==> *final(cursor) == *old(cursor) && final(query)@ == old(query)@,
{
    if *cursor > 0 {
        *cursor = *cursor - 1;
        remove_char_at(query, *cursor);
        true
    } else {
        false
    }
}

/// Inserts `c` at the cursor and moves the cursor past it.
pub fn picker_type_char(query: &mut String, cursor: &mut usize, c: char)
    requires
        *old(cursor) < usize::MAX,
    ensures
        final(query)@ == insert_at(old(query)@, *old(cursor) as int, c),
        *final(cursor) == *old(cursor) + 1,
{
    insert_char_at(query, *cursor, c);
    *cursor = *cursor + 1;
}

/// Typing a character and then deleting it with backspace leaves the query
/// and the cursor as they were, wherever the cursor stood within the query:
/// typing leaves the query `insert_at(query, cursor, c)` and the cursor one
/// further on; the backspace then reports a change, steps the cursor back and
/// removes the character before it.
pub proof fn law_type_then_backspace(query: Seq<char>, cursor: int, c: char)
    requires
        0 <= cursor <= query.len(),
    ensures
        ({
            let (typed, moved) = (insert_at(query, cursor, c), cursor + 1);
            &&& moved > 0
            &&& moved - 1 == cursor
            &&& remove_at(typed, moved - 1) == query
        }),
{
    assert(query.insert(cursor, c).remove(cursor) =~= query);
}

/// Moving down and then up in a list returns to the row one started from,
/// except from the last row, where moving down stays put.
pub proof fn law_nav_down_then_up(i: usize, len: nat)
    requires
        i + 1 < len,
        len <= usize::MAX,
    ensures
        nav_up(Some(nav_down(Some(i), len))) == i,
        nav_down(Some((len - 1) as usize), len) == len - 1,
{
}

} // verus!
