use vstd::prelude::*;

verus! {

/// The view that is shown: the list of events, the detail of the selected
/// event, or the alert of an upcoming event.
#[derive(Debug, Clone, Copy, PartialEq, Eq, Structural)]
pub enum Focus {
    Table,
    Selected,
    Popup,
}

/// A user command, as read from the keyboard.
#[derive(Debug, Clone, Copy, PartialEq, Eq, Structural)]
pub enum Key {
    /// Leave the program.
    Quit,
    /// Close the detail view or dismiss the alert.
    Back,
    /// Open the detail view of the selected event.
    Open,
    /// Select the next event.
    Down,
    /// Select the previous event.
    Up,
    /// Any other key.
    Other,
}

/// A cursor is either unset or points into a list of `len` rows.
pub open spec fn valid_selection(sel: Option<usize>, len: nat) -> bool {
    match sel {
        Some(i) => i < len,
        None => true,
    }
}

/// The cursor after moving down one row, wrapping from the last row to the
/// first; an empty list has no cursor.
pub open spec fn next_index(sel: Option<usize>, len: nat) -> Option<usize> {
    if len == 0 {
        None
    } else {
        match sel {
            Some(i) => if i + 1 >= len {
                Some(0usize)
            } else {
                Some((i + 1) as usize)
            },
            None => Some(0usize),
        }
    }
}

/// The cursor after moving up one row, wrapping from the first row to the
/// last; an empty list has no cursor.
pub open spec fn previous_index(sel: Option<usize>, len: nat) -> Option<usize> {
    if len == 0 {
        None
    } else {
        match sel {
            Some(i) => if i == 0 || i >= len {
                Some((len - 1) as usize)
            } else {
                Some((i - 1) as usize)
            },
            None => Some(0usize),
        }
    }
}

/// The cursor brought back into a list of `len` rows: unset for an empty
/// list, the first row where it was unset, the last row where it pointed
/// past the end.
pub open spec fn clamped_index(sel: Option<usize>, len: nat) -> Option<usize> {
    if len == 0 {
        None
    } else {
        match sel {
            Some(i) => if i < len {
                Some(i)
            } else {
                Some((len - 1) as usize)
            },
            None => Some(0usize),
        }
    }
}

/// The view after `key` was pressed in view `f`. From the alert, any
/// navigation returns to the list.
pub open spec fn focus_after(f: Focus, key: Key) -> Focus {
    match f {
        Focus::Table => if key == Key::Open {
            Focus::Selected
        } else {
            Focus::Table
        },
        Focus::Selected => if key == Key::Back {
            Focus::Table
        } else {
            Focus::Selected
        },
        Focus::Popup => match key {
            Key::Back | Key::Open | Key::Down | Key::Up => Focus::Table,
            _ => Focus::Popup,
        },
    }
}

/// The cursor after `key` was pressed in view `f`: it moves only in the list.
pub open spec fn selection_after(f: Focus, key: Key, sel: Option<usize>, len: nat) -> Option<usize> {
    if f == Focus::Table && key == Key::Down {
        next_index(sel, len)
    } else if f == Focus::Table && key == Key::Up {
        previous_index(sel, len)
    } else {
        sel
    }
}

/// Moves the cursor down one row of `len`, wrapping around.
pub fn select_next(sel: Option<usize>, len: usize) -> (r: Option<usize>)
    ensures
        r == next_index(sel, len as nat),
        valid_selection(r, len as nat),
{
    if len == 0 {
        None
    } else {
        match sel {
            Some(i) => if i >= len - 1 {
                Some(0)
            } else {
                Some(i + 1)
            },
            None => Some(0),
        }
    }
}

/// Moves the cursor up one row of `len`, wrapping around.
pub fn select_previous(sel: Option<usize>, len: usize) -> (r: Option<usize>)
    ensures
        r == previous_index(sel, len as nat),
        valid_selection(r, len as nat),
{
    if len == 0 {
        None
    } else {
        match sel {
            Some(i) => if i == 0 || i >= len {
                Some(len - 1)
            } else {
                Some(i - 1)
            },
            None => Some(0),
        }
    }
}

/// Brings the cursor back into a list of `len` rows.
pub fn clamp_selection(sel: Option<usize>, len: usize) -> (r: Option<usize>)
    ensures
        r == clamped_index(sel, len as nat),
        valid_selection(r, len as nat),
{
    if len == 0 {
        None
    } else {
        match sel {
            Some(i) => if i < len {
                Some(i)
            } else {
                Some(len - 1)
            },
            None => Some(0),
        }
    }
}

/// The view after `key` was pressed in view `focus`.
pub fn next_focus(focus: Focus, key: Key) -> (r: Focus)
    ensures
        r == focus_after(focus, key),
{
    match focus {
        Focus::Table => if key == Key::Open {
            Focus::Selected
        } else {
            Focus::Table
        },
        Focus::Selected => if key == Key::Back {
            Focus::Table
        } else {
            Focus::Selected
        },
        Focus::Popup => match key {
            Key::Back | Key::Open | Key::Down | Key::Up => Focus::Table,
            _ => Focus::Popup,
        },
    }
}

} // verus!
