use vstd::prelude::*;

use crate::config::{create_key_map, key_index_of, key_table, CHIP8_KEY_COUNT};

verus! {

/// The state of the sixteen keypad keys, and the table that binds host key
/// codes to them.
#[derive(Debug)]
pub struct Keyboard {
    key_states: [bool; CHIP8_KEY_COUNT],
    key_map: Vec<(i32, usize)>,
}

impl View for Keyboard {
    type V = Seq<bool>;

    /// Entry `i` tells whether keypad key `i` is down.
    closed spec fn view(&self) -> Seq<bool> {
        self.key_states@
    }
}

impl Keyboard {
    pub closed spec fn wf(&self) -> bool {
        self.key_map@ == key_table()
    }

    /// A keypad with every key up.
    pub fn new() -> (r: Self)
        ensures
            r.wf(),
            r@ == Seq::new(16, |i: int| false),
    {
        let r = Self { key_states: [false; CHIP8_KEY_COUNT], key_map: create_key_map() };
        assert(r@ =~= Seq::new(16, |i: int| false));
        r
    }

    /// Records that a host key went down; keys outside the table are ignored.
    pub fn key_down(&mut self, key: i32)
        requires
            old(self).wf(),
        ensures
            final(self).wf(),
            final(self)@ == match key_index_of(key) {
                Some(k) => old(self)@.update(k as int, true),
                None => old(self)@,
            },
    {
        if let Some(k) = self.map_key(key) {
            self.key_states[k] = true;
        }
    }

    /// Records that a host key went up; keys outside the table are ignored.
    pub fn key_up(&mut self, key: i32)
        requires
            old(self).wf(),
        ensures
            final(self).wf(),
            final(self)@ == match key_index_of(key) {
                Some(k) => old(self)@.update(k as int, false),
                None => old(self)@,
            },
    {
        if let Some(k) = self.map_key(key) {
            self.key_states[k] = false;
        }
    }

    /// Whether the keypad key bound to a host key is down; `None` for a host
    /// key outside the table.
    pub fn is_key_down(&self, key: i32) -> (r: Option<bool>)
        requires
            self.wf(),
        ensures
            r == match key_index_of(key) {
                Some(k) => Some(self@[k as int]),
                None => None::<bool>,
            },
    {
        if let Some(k) = self.map_key(key) {
            return Some(self.key_states[k]);
        }
        None
    }

    /// The keypad always has sixteen keys.
    pub proof fn lemma_len(&self)
        ensures
            self@.len() == 16,
    {
    }

    /// Whether keypad key `index` is down; an index past the keypad is a key
    /// that is never down.
    pub fn is_pressed(&self, index: usize) -> (r: bool)
        ensures
            r == (index < 16 && self@[index as int]),
    {
        index < CHIP8_KEY_COUNT && self.key_states[index]
    }

    /// The keypad index bound to a host key, if any.
    pub fn map_key(&self, key: i32) -> (r: Option<usize>)
        requires
            self.wf(),
        ensures
            r == key_index_of(key),
            r matches Some(k) ==> k < 16,
    {
        let mut i: usize = 0;
        while i < self.key_map.len()
            invariant
                self.wf(),
                i <= self.key_map@.len(),
                forall|j: int| 0 <= j < i ==> #[trigger] self.key_map@[j].0 != key,
            decreases self.key_map@.len() - i,
        {
            if self.key_map[i].0 == key {
                return Some(self.key_map[i].1);
            }
            i = i + 1;
        }
        assert(key_index_of(key) is None) by {
            if key_index_of(key) is Some {
                let k = key_index_of(key).unwrap();
                assert(self.key_map@[k as int].0 == key);
            }
        }
        None
    }
}

} // verus!
