//! A key that is active in a tick.

use vstd::prelude::*;
use crate::action::KeyAction;
use crate::action::ReportKey;

verus! {

/// An active key: where it comes from and what it does.
#[derive(Clone, Copy, Debug, PartialEq, Eq)]
pub struct Key {
    /// The column of its cell, for a key of the matrix.
    pub col: Option<usize>,
    /// The row of its cell, for a key of the matrix.
    pub row: Option<usize>,
    /// Its action.
    pub action: KeyAction,
    /// Whether it comes from an encoder.
    pub encoder: bool,
}

impl Key {
    /// The key held at a cell of the matrix.
    pub open spec fn at(row: int, col: int, action: KeyAction) -> Key {
        Key { col: Some(col as usize), row: Some(row as usize), action, encoder: false }
    }

    /// The key of a detent of an encoder.
    pub open spec fn turned(action: KeyAction) -> Key {
        Key { col: None, row: None, action, encoder: true }
    }

    /// The key held at a cell of the matrix.
    pub fn on_matrix(row: usize, col: usize, action: KeyAction) -> (key: Key)
        ensures
            key == Key::at(row as int, col as int, action),
    {
        Key { col: Some(col), row: Some(row), action, encoder: false }
    }

    /// The key of a detent of an encoder.
    pub fn on_encoder(action: KeyAction) -> (key: Key)
        ensures
            key == Key::turned(action),
    {
        Key { col: None, row: None, action, encoder: true }
    }
}

/// The report entries of a sequence of keys, in their order; keys without a
/// report entry are passed over.
pub open spec fn report_entries(keys: Seq<Key>) -> Seq<ReportKey>
    decreases keys.len(),
{
    if keys.len() == 0 {
        Seq::empty()
    } else {
        match keys.last().action.report_key() {
            Some(entry) => report_entries(keys.drop_last()).push(entry),
            None => report_entries(keys.drop_last()),
        }
    }
}

} // verus!
