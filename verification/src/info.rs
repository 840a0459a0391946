//! The info of a game server: an ordered map from keys to values.
use crate::lexer::bytes_equal;
use crate::messages::{InfoKey, InfoValue};
use crate::ordered::{
    entries, keys_distinct, lemma_with_entry_distinct, map_get_index, map_insert, map_len, map_new,
    with_entry, Entry,
};
use indexmap::IndexMap;
use vstd::prelude::*;
use vstd::slice::slice_to_vec;
use vstd::std_specs::cmp::PartialEqSpecImpl;

verus! {

/// Ordered map of [`InfoKey`]-[`InfoValue`] pairs.
///
/// The view is the sequence of pairs in the order in which their keys were
/// first inserted. No key occurs twice. Two infos are equal where they hold
/// the same pairs in the same order.
#[derive(Debug)]
pub struct Info(IndexMap<Vec<u8>, Vec<u8>>);

impl View for Info {
    type V = Seq<Entry>;

    closed spec fn view(&self) -> Seq<Entry> {
        entries(self.0)
    }
}

impl Info {
    #[verifier::type_invariant]
    spec fn well_formed(self) -> bool {
        keys_distinct(entries(self.0))
    }

    /// An info without pairs.
    pub fn new() -> (info: Self)
        ensures
            info@ == Seq::<Entry>::empty(),
    {
        Info(map_new())
    }

    /// Gives `key` the value `value`. A key that is there keeps its place in
    /// the order; a new key goes to the end.
    pub fn insert(&mut self, key: InfoKey, value: InfoValue)
        ensures
            final(self)@ == with_entry(old(self)@, key@, value@),
    {
        proof {
            use_type_invariant(&*self);
            lemma_with_entry_distinct(entries(self.0), key@, value@);
        }
        // The map is taken out, changed, and put back.
        let mut taken = Info(map_new());
        std::mem::swap(self, &mut taken);
        let mut map = taken.0;
        let _ = map_insert(&mut map, key.into_bytes(), value.into_bytes());
        *self = Info(map);
    }

    /// The number of pairs. No two of them have the same key.
    pub fn len(&self) -> (len: usize)
        ensures
            len == self@.len(),
            keys_distinct(self@),
    {
        proof {
            use_type_invariant(self);
        }
        map_len(&self.0)
    }

    /// The pair at `index` in the order, or `None` from the length on.
    pub fn get_index(&self, index: usize) -> (entry: Option<(&[u8], &[u8])>)
        ensures
            match entry {
                Some((key, value)) => index < self@.len() && (key@, value@) == self@[index as int],
                None => index >= self@.len(),
            },
    {
        match map_get_index(&self.0, index) {
            Some((key, value)) => Some((key.as_slice(), value.as_slice())),
            None => None,
        }
    }

    /// All pairs, in order.
    pub fn iter(&self) -> (pairs: Vec<(InfoKey, InfoValue)>)
        ensures
            pairs@.len() == self@.len(),
            forall|i: int|
                0 <= i < pairs@.len() ==> (#[trigger] pairs@[i]).0@ == self@[i].0 && pairs@[i].1@
                    == self@[i].1,
    {
        let n = self.len();
        let mut pairs: Vec<(InfoKey, InfoValue)> = Vec::new();
        let mut i: usize = 0;
        while i < n
            invariant
                0 <= i <= n,
                n == self@.len(),
                pairs@.len() == i,
                forall|j: int|
                    0 <= j < i ==> (#[trigger] pairs@[j]).0@ == self@[j].0 && pairs@[j].1@
                        == self@[j].1,
            decreases n - i,
        {
            match self.get_index(i) {
                Some((key, value)) => {
                    pairs.push(
                        (
                            InfoKey::new(slice_to_vec(key)).unwrap(),
                            InfoValue::new(slice_to_vec(value)).unwrap(),
                        ),
                    );
                },
                None => {},
            }
            i += 1;
        }
        pairs
    }
}

impl PartialEq for Info {
    fn eq(&self, other: &Self) -> (equal: bool) {
        let n = self.len();
        if other.len() != n {
            return false;
        }
        let mut i: usize = 0;
        while i < n
            invariant
                0 <= i <= n,
                n == self@.len(),
                n == other@.len(),
                forall|j: int| 0 <= j < i ==> self@[j] == other@[j],
            decreases n - i,
        {
            match (self.get_index(i), other.get_index(i)) {
                (Some((key, value)), Some((other_key, other_value))) => {
                    if !bytes_equal(key, other_key) || !bytes_equal(value, other_value) {
                        assert(self@[i as int] != other@[i as int]);
                        return false;
                    }
                },
                _ => {},
            }
            i += 1;
        }
        assert(self@ =~= other@);
        true
    }
}

impl PartialEqSpecImpl for Info {
    open spec fn obeys_eq_spec() -> bool {
        true
    }

    open spec fn eq_spec(&self, other: &Self) -> bool {
        self@ == other@
    }
}

impl Eq for Info {

}

} // verus!
