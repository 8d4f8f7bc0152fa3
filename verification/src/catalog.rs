//! The ordered collection of package records.
//!
//! Records are kept in an `IndexMap` under their identifier. The order is the
//! order of first insertion: a record that comes again under a known
//! identifier takes the place of the old one and does not move.

use vstd::prelude::*;
use indexmap::IndexMap;
use crate::package::{PackageListing, PackageListingView};

verus! {

/// Trusted: the map type of `indexmap`. Its contents are known through
/// `entries` alone.
#[verifier::external_type_specification]
#[verifier::external_body]
#[verifier::reject_recursive_types(K)]
#[verifier::reject_recursive_types(V)]
#[verifier::reject_recursive_types(S)]
pub struct ExIndexMap<K, V, S>(IndexMap<K, V, S>);

/// Keys and records, in order.
pub type Entries = Seq<(Seq<char>, PackageListingView)>;

/// What a map holds: its keys with their records, in the order of the map.
pub uninterp spec fn entries(map: IndexMap<String, PackageListing>) -> Entries;

/// Some entry has the key.
pub open spec fn has_key(entries: Entries, key: Seq<char>) -> bool {
    exists|i: int| 0 <= i < entries.len() && (#[trigger] entries[i]).0 == key
}

/// The place of an entry with the key, if there is one.
pub open spec fn index_of(entries: Entries, key: Seq<char>) -> int {
    choose|i: int| 0 <= i < entries.len() && (#[trigger] entries[i]).0 == key
}

/// The record under the key, if there is one.
pub open spec fn record_of(entries: Entries, key: Seq<char>) -> PackageListingView {
    entries[index_of(entries, key)].1
}

/// No key occurs twice.
pub open spec fn distinct_keys(entries: Entries) -> bool {
    forall|i: int, j: int|
        0 <= i < j < entries.len() ==> (#[trigger] entries[i]).0 != (#[trigger] entries[j]).0
}

/// Every record stands under its own identifier.
pub open spec fn keyed_by_uuid(entries: Entries) -> bool {
    forall|i: int| 0 <= i < entries.len() ==> (#[trigger] entries[i]).0 == entries[i].1.uuid
}

/// What holds of every collection of records: no identifier occurs twice and
/// every record stands under its own.
pub open spec fn well_keyed(entries: Entries) -> bool {
    distinct_keys(entries) && keyed_by_uuid(entries)
}

/// Insertion by key. Under a key that is there the record is replaced where
/// it stands; a new key goes to the end with its record.
pub open spec fn upsert(entries: Entries, key: Seq<char>, record: PackageListingView) -> Entries {
    if has_key(entries, key) {
        entries.update(index_of(entries, key), (key, record))
    } else {
        entries.push((key, record))
    }
}

/// The entries of `extra` inserted into `base`, one after the other, in their
/// order.
pub open spec fn merge(base: Entries, extra: Entries) -> Entries
    decreases extra.len(),
{
    if extra.len() == 0 {
        base
    } else {
        upsert(merge(base, extra.drop_last()), extra.last().0, extra.last().1)
    }
}

/// Trusted: `IndexMap::new`, which makes a map without entries.
#[verifier::external_body]
fn empty_map() -> (map: IndexMap<String, PackageListing>)
    ensures
        entries(map) == Seq::<(Seq<char>, PackageListingView)>::empty(),
{
    IndexMap::new()
}

/// Trusted: `IndexMap::insert`. A key that the map has keeps its place and
/// gets the new record; a key that it lacks is added behind all others. The
/// record that was replaced is dropped.
#[verifier::external_body]
fn insert_entry(map: &mut IndexMap<String, PackageListing>, key: String, record: PackageListing)
    ensures
        entries(*final(map)) == upsert(entries(*old(map)), key@, record@),
{
    map.insert(key, record);
}

/// Trusted: `Extend::extend` of `IndexMap`, fed with another map. It inserts
/// the entries of the other map one by one, in that map's order.
#[verifier::external_body]
fn extend_map(map: &mut IndexMap<String, PackageListing>, extra: IndexMap<String, PackageListing>)
    ensures
        entries(*final(map)) == merge(entries(*old(map)), entries(extra)),
{
    map.extend(extra);
}

/// Trusted: `IndexMap::len`, the number of entries.
#[verifier::external_body]
fn map_len(map: &IndexMap<String, PackageListing>) -> (len: usize)
    ensures
        len == entries(*map).len(),
{
    map.len()
}

/// Trusted: `IndexMap::get`, which finds the record under a key, if the map
/// has the key.
#[verifier::external_body]
fn lookup<'a>(map: &'a IndexMap<String, PackageListing>, key: &str) -> (found: Option<
    &'a PackageListing,
>)
    ensures
        match found {
            Some(record) => exists|i: int|
                0 <= i < entries(*map).len() && #[trigger] entries(*map)[i] == (key@, record@),
            None => !has_key(entries(*map), key@),
        },
{
    map.get(key)
}

/// Trusted: `IndexMap::get_index`, which finds the entry at a place in the
/// order, counted from 0; of the entry only the record is handed out.
#[verifier::external_body]
fn record_at<'a>(map: &'a IndexMap<String, PackageListing>, index: usize) -> (found: Option<
    &'a PackageListing,
>)
    ensures
        match found {
            Some(record) => index < entries(*map).len() && entries(*map)[index as int].1
                == record@,
            None => index >= entries(*map).len(),
        },
{
    map.get_index(index).map(|entry| entry.1)
}

/// With distinct keys, an entry is found where it stands.
pub proof fn lemma_index_of(entries: Entries, i: int)
    requires
        distinct_keys(entries),
        0 <= i < entries.len(),
    ensures
        has_key(entries, entries[i].0),
        index_of(entries, entries[i].0) == i,
{
    assert(has_key(entries, entries[i].0));
}

/// Insertion keeps keys distinct and records under their identifiers, keeps
/// every old entry in its place, and leaves the new record under its key.
pub proof fn lemma_upsert(entries: Entries, key: Seq<char>, record: PackageListingView)
    requires
        distinct_keys(entries),
    ensures
        distinct_keys(upsert(entries, key, record)),
        keyed_by_uuid(entries) && key == record.uuid ==> keyed_by_uuid(upsert(entries, key, record)),
        entries.len() <= upsert(entries, key, record).len() <= entries.len() + 1,
        forall|k: int|
            0 <= k < entries.len() ==> (#[trigger] upsert(entries, key, record)[k]).0
                == entries[k].0,
        forall|k: int|
            0 <= k < entries.len() && entries[k].0 != key ==> #[trigger] upsert(
                entries,
                key,
                record,
            )[k] == entries[k],
        has_key(upsert(entries, key, record), key),
        record_of(upsert(entries, key, record), key) == record,
        has_key(entries, key) ==> upsert(entries, key, record).len() == entries.len(),
        !has_key(entries, key) ==> upsert(entries, key, record) == entries.push((key, record)),
        forall|k: int|
            0 <= k < upsert(entries, key, record).len() ==> #[trigger] upsert(
                entries,
                key,
                record,
            )[k] == (key, record) || (k < entries.len() && upsert(entries, key, record)[k]
                == entries[k]),
{
    let after = upsert(entries, key, record);
    if has_key(entries, key) {
        let at = index_of(entries, key);
        lemma_index_of(after, at);
    } else {
        let at = entries.len() as int;
        lemma_index_of(after, at);
    }
}

/// What a merge does, key by key. The keys of the result are distinct. The
/// entries of `base` keep their places. A key of `extra` has the record of
/// `extra`; any other key has the record it had in `base`.
pub proof fn lemma_merge(base: Entries, extra: Entries)
    requires
        distinct_keys(base),
        distinct_keys(extra),
    ensures
        distinct_keys(merge(base, extra)),
        keyed_by_uuid(base) && keyed_by_uuid(extra) ==> keyed_by_uuid(merge(base, extra)),
        base.len() <= merge(base, extra).len(),
        forall|k: int|
            0 <= k < base.len() ==> (#[trigger] merge(base, extra)[k]).0 == base[k].0,
        forall|k: int|
            0 <= k < base.len() && !has_key(extra, base[k].0) ==> #[trigger] merge(base, extra)[k]
                == base[k],
        forall|j: int|
            0 <= j < extra.len() ==> has_key(merge(base, extra), (#[trigger] extra[j]).0)
                && record_of(merge(base, extra), extra[j].0) == extra[j].1,
        forall|k: int|
            0 <= k < merge(base, extra).len() ==> has_key(base, (#[trigger] merge(base, extra)[k]).0)
                || has_key(extra, merge(base, extra)[k].0),
        forall|k: int|
            0 <= k < merge(base, extra).len() ==> base.contains(#[trigger] merge(base, extra)[k])
                || extra.contains(merge(base, extra)[k]),
    decreases extra.len(),
{
    if extra.len() > 0 {
        let init = extra.drop_last();
        let last = extra.last();
        let before = merge(base, init);
        let after = merge(base, extra);
        assert(distinct_keys(init));
        assert(keyed_by_uuid(extra) ==> keyed_by_uuid(init));
        lemma_merge(base, init);
        lemma_upsert(before, last.0, last.1);
        assert forall|k: int| 0 <= k < base.len() && !has_key(extra, base[k].0) implies #[trigger] after[k]
            == base[k] by {
            assert(!has_key(init, base[k].0));
        }
        assert forall|j: int| 0 <= j < extra.len() implies has_key(after, (#[trigger] extra[j]).0)
            && record_of(after, extra[j].0) == extra[j].1 by {
            if j < init.len() {
                let at = index_of(before, init[j].0);
                lemma_index_of(after, at);
            }
        }
    }
}

/// Merging into a collection without records gives the merged collection
/// itself.
pub proof fn lemma_merge_into_empty(extra: Entries)
    requires
        distinct_keys(extra),
    ensures
        merge(Seq::empty(), extra) == extra,
    decreases extra.len(),
{
    if extra.len() > 0 {
        let init = extra.drop_last();
        lemma_merge_into_empty(init);
    }
}

/// Merge precedence. Where a key stands in both collections, the merged
/// collection has it at the place it has in the first one, with the record of
/// the second one.
pub proof fn lemma_merge_precedence(base: Entries, extra: Entries, i: int, j: int)
    requires
        distinct_keys(base),
        distinct_keys(extra),
        0 <= i < base.len(),
        0 <= j < extra.len(),
        base[i].0 == extra[j].0,
    ensures
        i < merge(base, extra).len(),
        merge(base, extra)[i] == (base[i].0, extra[j].1),
        index_of(merge(base, extra), base[i].0) == i,
{
    lemma_merge(base, extra);
    let merged = merge(base, extra);
    lemma_index_of(merged, i);
}

/// An ordered collection of package records, each under its identifier.
pub struct PackageMap {
    map: IndexMap<String, PackageListing>,
}

impl View for PackageMap {
    type V = Entries;

    closed spec fn view(&self) -> Entries {
        entries(self.map)
    }
}

impl PackageMap {
    #[verifier::type_invariant]
    spec fn inv(self) -> bool {
        well_keyed(entries(self.map))
    }

    /// A collection without records.
    pub fn new() -> (packages: PackageMap)
        ensures
            packages@ == Seq::<(Seq<char>, PackageListingView)>::empty(),
    {
        PackageMap { map: empty_map() }
    }

    /// The number of records.
    pub fn len(&self) -> (len: usize)
        ensures
            len == self@.len(),
            well_keyed(self@),
    {
        proof {
            use_type_invariant(self);
        }
        map_len(&self.map)
    }

    /// Whether the collection has no record.
    pub fn is_empty(&self) -> (empty: bool)
        ensures
            empty == (self@.len() == 0),
    {
        map_len(&self.map) == 0
    }

    /// The record under an identifier.
    pub fn get(&self, uuid: &str) -> (found: Option<&PackageListing>)
        ensures
            match found {
                Some(record) => has_key(self@, uuid@) && record@ == record_of(self@, uuid@),
                None => !has_key(self@, uuid@),
            },
    {
        let found = lookup(&self.map, uuid);
        proof {
            use_type_invariant(self);
            if let Some(record) = found {
                let i = choose|i: int|
                    0 <= i < entries(self.map).len() && #[trigger] entries(self.map)[i] == (
                        uuid@,
                        record@,
                    );
                lemma_index_of(entries(self.map), i);
            }
        }
        found
    }

    /// Whether a record stands under an identifier.
    pub fn contains(&self, uuid: &str) -> (found: bool)
        ensures
            found == has_key(self@, uuid@),
    {
        self.get(uuid).is_some()
    }

    /// The record at a place in the order, counted from 0.
    pub fn get_index(&self, index: usize) -> (found: Option<&PackageListing>)
        ensures
            match found {
                Some(record) => index < self@.len() && self@[index as int] == (
                    record@.uuid,
                    record@,
                ),
                None => index >= self@.len(),
            },
    {
        let found = record_at(&self.map, index);
        proof {
            use_type_invariant(self);
        }
        found
    }

    /// Puts a record under its identifier. A record that stood there is
    /// replaced and the place is kept; a new identifier goes to the end.
    pub fn insert(&mut self, listing: PackageListing)
        ensures
            final(self)@ == upsert(old(self)@, listing@.uuid, listing@),
            well_keyed(old(self)@),
            well_keyed(final(self)@),
    {
        proof {
            use_type_invariant(&*self);
            lemma_upsert(self@, listing@.uuid, listing@);
        }
        let key = listing.uuid().to_owned();
        let mut map = empty_map();
        core::mem::swap(&mut self.map, &mut map);
        insert_entry(&mut map, key, listing);
        self.map = map;
    }

    /// Inserts the records of `extra`, one after the other, in their order.
    pub fn extend(&mut self, extra: PackageMap)
        ensures
            final(self)@ == merge(old(self)@, extra@),
            well_keyed(old(self)@),
            well_keyed(extra@),
            well_keyed(final(self)@),
    {
        proof {
            use_type_invariant(&*self);
            use_type_invariant(&extra);
            lemma_merge(self@, extra@);
        }
        let mut map = empty_map();
        core::mem::swap(&mut self.map, &mut map);
        extend_map(&mut map, extra.map);
        self.map = map;
    }

    /// The map itself, for what reads it in ways this module does not offer.
    pub fn as_index_map(&self) -> (map: &IndexMap<String, PackageListing>)
        ensures
            entries(*map) == self@,
    {
        &self.map
    }
}

} // verus!
