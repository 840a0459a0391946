//! The insertion-ordered map behind [`Info`](crate::messages::Info).
use indexmap::IndexMap;
use vstd::prelude::*;

verus! {

/// One key with its value.
pub type Entry = (Seq<u8>, Seq<u8>);

/// `indexmap::IndexMap`, whose inside is the outside crate's.
#[verifier::external_type_specification]
#[verifier::external_body]
#[verifier::reject_recursive_types(K)]
#[verifier::reject_recursive_types(V)]
#[verifier::reject_recursive_types(S)]
pub struct ExIndexMap<K, V, S>(IndexMap<K, V, S>);

/// The key-value pairs that the map holds, in the order in which their keys
/// were first inserted. The order is that of insertion alone: it does not
/// depend on how keys are hashed.
pub uninterp spec fn entries(map: IndexMap<Vec<u8>, Vec<u8>>) -> Seq<Entry>;

/// The first place in `entries` that holds `key`, if there is one.
pub open spec fn index_of_key(entries: Seq<Entry>, key: Seq<u8>) -> Option<int>
    decreases entries.len(),
{
    if entries.len() == 0 {
        None
    } else {
        match index_of_key(entries.drop_last(), key) {
            Some(index) => Some(index),
            None => if entries.last().0 == key {
                Some(entries.len() - 1)
            } else {
                None
            },
        }
    }
}

/// `entries` after `key` was given `value`: a key that is there keeps its
/// place and gets the value, a new key goes to the end.
pub open spec fn with_entry(entries: Seq<Entry>, key: Seq<u8>, value: Seq<u8>) -> Seq<Entry> {
    match index_of_key(entries, key) {
        Some(index) => entries.update(index, (key, value)),
        None => entries.push((key, value)),
    }
}

/// Whether no key stands at two places.
pub open spec fn keys_distinct(entries: Seq<Entry>) -> bool {
    forall|i: int, j: int|
        0 <= i < entries.len() && 0 <= j < entries.len() && i != j ==> (#[trigger] entries[i]).0
            != (#[trigger] entries[j]).0
}

/// What [`index_of_key`] finds holds the key, and nothing before it does; it
/// finds nothing only where no place holds the key.
pub proof fn lemma_index_of_key(entries: Seq<Entry>, key: Seq<u8>)
    ensures
        match index_of_key(entries, key) {
            Some(index) => {
                &&& 0 <= index < entries.len()
                &&& entries[index].0 == key
                &&& forall|j: int| 0 <= j < index ==> (#[trigger] entries[j]).0 != key
            },
            None => forall|j: int| 0 <= j < entries.len() ==> (#[trigger] entries[j]).0 != key,
        },
    decreases entries.len(),
{
    if entries.len() > 0 {
        let front = entries.drop_last();
        lemma_index_of_key(front, key);
        match index_of_key(front, key) {
            Some(index) => {
                assert(entries[index] == front[index]);
                assert forall|j: int| 0 <= j < index implies (#[trigger] entries[j]).0 != key by {
                    assert(front[j] == entries[j]);
                }
            },
            None => {
                assert forall|j: int| 0 <= j < front.len() implies (#[trigger] entries[j]).0
                    != key by {
                    assert(front[j] == entries[j]);
                }
            },
        }
    }
}

/// Giving a key a value keeps the keys distinct.
pub proof fn lemma_with_entry_distinct(entries: Seq<Entry>, key: Seq<u8>, value: Seq<u8>)
    requires
        keys_distinct(entries),
    ensures
        keys_distinct(with_entry(entries, key, value)),
{
    lemma_index_of_key(entries, key);
    let after = with_entry(entries, key, value);
    assert forall|i: int, j: int|
        0 <= i < after.len() && 0 <= j < after.len() && i != j implies (#[trigger] after[i]).0 != (
    #[trigger] after[j]).0 by {
        match index_of_key(entries, key) {
            Some(index) => {
                assert(after[i].0 == entries[i].0);
                assert(after[j].0 == entries[j].0);
            },
            None => {
                if i < entries.len() {
                    assert(after[i] == entries[i]);
                }
                if j < entries.len() {
                    assert(after[j] == entries[j]);
                }
            },
        }
    }
}

/// `IndexMap::new`: a map that holds nothing.
#[verifier::external_body]
pub(crate) fn map_new() -> (map: IndexMap<Vec<u8>, Vec<u8>>)
    ensures
        entries(map) == Seq::<Entry>::empty(),
{
    IndexMap::new()
}

/// `IndexMap::len`: the number of key-value pairs in the map.
#[verifier::external_body]
pub(crate) fn map_len(map: &IndexMap<Vec<u8>, Vec<u8>>) -> (len: usize)
    ensures
        len == entries(*map).len(),
{
    map.len()
}

/// `IndexMap::insert`: an equivalent key that is in the map keeps its place
/// in the order and gets `value`, and the value it had is returned; a new key
/// is inserted last in order with `value`, and `None` is returned.
#[verifier::external_body]
pub(crate) fn map_insert(
    map: &mut IndexMap<Vec<u8>, Vec<u8>>,
    key: Vec<u8>,
    value: Vec<u8>,
) -> (replaced: Option<Vec<u8>>)
    ensures
        entries(*final(map)) == with_entry(entries(*old(map)), key@, value@),
        match index_of_key(entries(*old(map)), key@) {
            Some(index) => replaced is Some && replaced->Some_0@ == entries(*old(map))[index].1,
            None => replaced is None,
        },
{
    map.insert(key, value)
}

/// `IndexMap::get_index`: the key-value pair at `index` in the order, for
/// `index` below the map's length, else `None`.
#[verifier::external_body]
pub(crate) fn map_get_index(map: &IndexMap<Vec<u8>, Vec<u8>>, index: usize) -> (entry: Option<
    (&Vec<u8>, &Vec<u8>),
>)
    ensures
        match entry {
            Some((key, value)) => index < entries(*map).len() && (key@, value@) == entries(
                *map,
            )[index as int],
            None => index >= entries(*map).len(),
        },
{
    map.get_index(index)
}

} // verus!
