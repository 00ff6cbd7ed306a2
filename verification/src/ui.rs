//! The state of the user interface: values under keys, kept for the
//! clients and not read by the hub.

use vstd::prelude::*;

use crate::json::clone_json;
use crate::table::{index_of, lemma_index_of_is, lemma_index_of_none};

verus! {

/// A value under its key.
#[derive(Debug, PartialEq, Eq)]
pub struct UiEntry {
    pub key: String,
    pub value: serde_json::Value,
}

/// The keys of the entries, in order.
pub open spec fn ui_keys(entries: Seq<UiEntry>) -> Seq<Seq<char>> {
    Seq::new(entries.len(), |i: int| entries[i].key@)
}

/// The value under `key`.
pub open spec fn ui_value(entries: Seq<UiEntry>, key: Seq<char>) -> Option<serde_json::Value> {
    match index_of(ui_keys(entries), key) {
        Some(i) => Some(entries[i].value),
        None => None,
    }
}

/// The entries once `value` is stored under `key`: in the place of the
/// entry of that key, or at the end.
pub open spec fn ui_after_store(entries: Seq<UiEntry>, key: String, value: serde_json::Value) -> Seq<
    UiEntry,
> {
    match index_of(ui_keys(entries), key@) {
        Some(i) => entries.update(i, UiEntry { key, value }),
        None => entries.push(UiEntry { key, value }),
    }
}

/// The state of the user interface.
pub struct Ui {
    ui_state: Vec<UiEntry>,
}

impl Ui {
    /// The entries, in the order their keys were first stored.
    pub closed spec fn entries(&self) -> Seq<UiEntry> {
        self.ui_state@
    }

    pub fn new() -> (r: Ui)
        ensures
            r.entries() == Seq::<UiEntry>::empty(),
    {
        Ui { ui_state: Vec::new() }
    }

    /// The entries.
    pub fn get_state(&self) -> (r: &Vec<UiEntry>)
        ensures
            r@ == self.entries(),
    {
        &self.ui_state
    }

    fn find(&self, key: &String) -> (r: Option<usize>)
        ensures
            match r {
                Some(i) => index_of(ui_keys(self.entries()), key@) == Some(i as int) && i
                    < self.entries().len(),
                None => index_of(ui_keys(self.entries()), key@) is None,
            },
    {
        let mut i: usize = 0;
        while i < self.ui_state.len()
            invariant
                i <= self.ui_state.len(),
                forall|j: int| 0 <= j < i ==> ui_keys(self.ui_state@)[j] != key@,
            decreases self.ui_state.len() - i,
        {
            if self.ui_state[i].key == *key {
                proof {
                    lemma_index_of_is(ui_keys(self.ui_state@), key@, i as int);
                }
                return Some(i);
            }
            i += 1;
        }
        proof {
            lemma_index_of_none(ui_keys(self.ui_state@), key@);
        }
        None
    }

    /// The value under `key`.
    pub fn get(&self, key: &String) -> (r: Option<&serde_json::Value>)
        ensures
            match r {
                Some(v) => ui_value(self.entries(), key@) == Some(*v),
                None => ui_value(self.entries(), key@) is None,
            },
    {
        match self.find(key) {
            Some(i) => Some(&self.ui_state[i].value),
            None => None,
        }
    }

    /// Stores `value` under `key`.
    pub fn store_state(&mut self, key: String, value: serde_json::Value)
        ensures
            final(self).entries() == ui_after_store(old(self).entries(), key, value),
    {
        match self.find(&key) {
            Some(i) => {
                self.ui_state.set(i, UiEntry { key, value });
            },
            None => {
                self.ui_state.push(UiEntry { key, value });
            },
        }
    }

    /// Puts what the store holds in the place of the entries; nothing
    /// where there is no store.
    pub fn refresh_db_state(&mut self, snapshot: Option<Vec<UiEntry>>)
        ensures
            final(self).entries() == match snapshot {
                Some(v) => v@,
                None => Seq::<UiEntry>::empty(),
            },
    {
        self.ui_state = match snapshot {
            Some(v) => v,
            None => Vec::new(),
        };
    }
}

/// Copies a key and a JSON value into an entry.
pub fn entry_of(key: &String, value: &serde_json::Value) -> (r: UiEntry)
    ensures
        r == (UiEntry { key: *key, value: *value }),
{
    UiEntry { key: key.clone(), value: clone_json(value) }
}

} // verus!
