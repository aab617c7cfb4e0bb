use vstd::prelude::*;
use std::collections::HashMap;
use crate::hex_coord::HexCoord;

verus! {

/// A store of values addressed by hex coordinate: at most one value for each
/// hex, and only for the hexes of a domain that the store chooses.
pub trait HexData<T> {
    /// The hexes for which the store can hold a value.
    spec fn domain(&self) -> Set<HexCoord>;

    /// The values that the store holds, by hex.
    spec fn entries(&self) -> Map<HexCoord, T>;

    /// The store holds values for hexes of its domain only.
    proof fn lemma_entries_lie_in_domain(&self)
        ensures
            self.entries().dom().subset_of(self.domain()),
    ;

    /// Tells whether the store can hold a value for `hex`.
    fn hex_in_domain(&self, hex: HexCoord) -> (inside: bool)
        ensures
            inside == self.domain().contains(hex),
    ;

    /// Returns the value stored for `hex`, if there is one.
    fn get(&self, hex: HexCoord) -> (value: Option<&T>)
        ensures
            value == (if self.entries().contains_key(hex) {
                Some(&self.entries()[hex])
            } else {
                None
            }),
    ;

    /// Tells whether a value is stored for `hex`.
    fn contains_hex(&self, hex: HexCoord) -> (found: bool)
        ensures
            found == self.entries().contains_key(hex),
    {
        self.get(hex).is_some()
    }

    /// Stores `value` for `hex`, and returns the value that was stored for it
    /// before, if there was one. The store keeps its domain, and a value for
    /// a hex outside the domain is not stored.
    fn insert(&mut self, hex: HexCoord, value: T) -> (previous: Option<T>)
        ensures
            final(self).domain() == old(self).domain(),
            previous == (if old(self).entries().contains_key(hex) {
                Some(old(self).entries()[hex])
            } else {
                None
            }),
            final(self).entries() == (if old(self).domain().contains(hex) {
                old(self).entries().insert(hex, value)
            } else {
                old(self).entries()
            }),
    ;

    /// Takes the value stored for `hex` out of the store and returns it, if
    /// there is one. The store keeps its domain.
    fn remove(&mut self, hex: HexCoord) -> (removed: Option<T>)
        ensures
            final(self).domain() == old(self).domain(),
            removed == (if old(self).entries().contains_key(hex) {
                Some(old(self).entries()[hex])
            } else {
                None
            }),
            final(self).entries() == old(self).entries().remove(hex),
    ;
}

/// The key under which the hash map holds the value of a hex: the two
/// coordinates side by side in one integer. Different hexes have different
/// keys.
pub open spec fn key_of(hex: HexCoord) -> int {
    hex.q * 0x1_0000_0000 + (hex.r - i32::MIN)
}

/// A key fits in an `i64`, and no two hexes share one.
pub proof fn lemma_keys_are_distinct(a: HexCoord, b: HexCoord)
    ensures
        i64::MIN <= key_of(a) <= i64::MAX,
        key_of(a) == key_of(b) <==> a == b,
{
}

/// A store that holds a value for any hex whatever, backed by a hash map.
pub struct HashMapHexData<T> {
    data: HashMap<i64, T>,
}

/// Computes the key of a hex.
fn key(hex: HexCoord) -> (k: i64)
    ensures
        k == key_of(hex),
{
    (hex.q as i64) * 0x1_0000_0000 + ((hex.r as i64) - (i32::MIN as i64))
}

impl<T> HashMapHexData<T> {
    /// Creates a store without values.
    pub fn new() -> (store: HashMapHexData<T>)
        ensures
            store.entries() == Map::<HexCoord, T>::empty(),
    {
        let store = HashMapHexData { data: HashMap::new() };
        assert(store.entries() =~= Map::<HexCoord, T>::empty());
        store
    }
}

impl<T> HexData<T> for HashMapHexData<T> {
    open spec fn domain(&self) -> Set<HexCoord> {
        Set::full()
    }

    closed spec fn entries(&self) -> Map<HexCoord, T> {
        Map::new(
            |hex: HexCoord| self.data@.contains_key(key_of(hex) as i64),
            |hex: HexCoord| self.data@[key_of(hex) as i64],
        )
    }

    proof fn lemma_entries_lie_in_domain(&self) {
    }

    fn hex_in_domain(&self, _hex: HexCoord) -> (inside: bool) {
        true
    }

    fn get(&self, hex: HexCoord) -> (value: Option<&T>) {
        self.data.get(&key(hex))
    }

    fn insert(&mut self, hex: HexCoord, value: T) -> (previous: Option<T>) {
        let previous = self.data.insert(key(hex), value);
        assert forall|other: HexCoord| key_of(other) == key_of(hex) <==> other == hex by {
            lemma_keys_are_distinct(other, hex);
        }
        assert(self.entries() =~= old(self).entries().insert(hex, value));
        previous
    }

    fn remove(&mut self, hex: HexCoord) -> (removed: Option<T>) {
        let removed = self.data.remove(&key(hex));
        assert forall|other: HexCoord| key_of(other) == key_of(hex) <==> other == hex by {
            lemma_keys_are_distinct(other, hex);
        }
        assert(self.entries() =~= old(self).entries().remove(hex));
        removed
    }
}

} // verus!
